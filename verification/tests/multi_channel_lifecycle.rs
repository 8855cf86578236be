use tau_coding_agent::multi_channel_lifecycle::{
    apply_lifecycle_decision, build_lifecycle_report, check_lifecycle_schema,
    decide_lifecycle_action, ingress_file_for_transport, lifecycle_state_path_for_dir,
    probe_channel_readiness, render_multi_channel_lifecycle_report, resolve_lifecycle_secret,
    ChannelReadiness, CredentialRecord, CredentialStoreLookup, LifecycleActionKind,
    MultiChannelLifecycleChannelState, MultiChannelLifecycleReport, MultiChannelTransport,
    ResolvedSecret,
};

const ROOT: &str = "/tmp/lifecycle-root";

fn missing() -> ResolvedSecret {
    resolve_lifecycle_secret(None, &CredentialStoreLookup::StoreMissing)
}

fn direct(secret: &str) -> ResolvedSecret {
    resolve_lifecycle_secret(Some(secret), &CredentialStoreLookup::StoreMissing)
}

fn probe(
    channel: MultiChannelTransport,
    token: &ResolvedSecret,
    phone: &ResolvedSecret,
    ingress_exists: bool,
    require_ingress: bool,
) -> ChannelReadiness {
    let ingress = ingress_file_for_transport(&format!("{ROOT}/.tau/multi-channel/live-ingress"), channel);
    probe_channel_readiness(channel, token, phone, ingress, ingress_exists, ingress_exists, require_ingress)
}

/// One action against a channel row, the way the command runs it.
fn run_action(
    row: &mut MultiChannelLifecycleChannelState,
    action: LifecycleActionKind,
    channel: MultiChannelTransport,
    token: &ResolvedSecret,
    phone: &ResolvedSecret,
    ingress_exists: bool,
    now: u64,
) -> MultiChannelLifecycleReport {
    let readiness = probe(channel, token, phone, ingress_exists, action != LifecycleActionKind::Login);
    let decision = decide_lifecycle_action(action, &row.lifecycle_status, &readiness);
    if decision.persist {
        *row = apply_lifecycle_decision(row.clone(), action, &decision, now);
    }
    let state_path = lifecycle_state_path_for_dir(&format!("{ROOT}/.tau/multi-channel"));
    build_lifecycle_report(action, channel, readiness, &decision, state_path, now)
}

#[test]
fn unit_probe_channel_readiness_reports_missing_prerequisites() {
    let report = probe(MultiChannelTransport::Telegram, &missing(), &missing(), false, true);
    assert_eq!(report.readiness_status, "fail");
    assert!(report.reason_codes.contains(&"missing_telegram_bot_token".to_string()));
    assert!(report.reason_codes.contains(&"ingress_missing".to_string()));
}

#[test]
fn functional_login_action_creates_ingress_and_persists_initialized_state() {
    let mut row = MultiChannelLifecycleChannelState::default();
    let report = run_action(
        &mut row,
        LifecycleActionKind::Login,
        MultiChannelTransport::Telegram,
        &direct("telegram-secret"),
        &missing(),
        false,
        100,
    );
    assert_eq!(report.lifecycle_status, "initialized");
    assert_eq!(report.readiness_status, "pass");
    assert!(report.ingress_exists);
    assert!(report.ingress_is_file);
    assert!(report.state_persisted);
    assert_eq!(row.lifecycle_status, "initialized");
    assert_eq!(row.last_action, "login");
    assert_eq!(report.state_path, "/tmp/lifecycle-root/.tau/multi-channel/security/channel-lifecycle.json");
}

#[test]
fn integration_login_status_logout_probe_flow_roundtrips_channel_state() {
    let mut row = MultiChannelLifecycleChannelState::default();
    let token = direct("discord-secret");
    let login = run_action(&mut row, LifecycleActionKind::Login, MultiChannelTransport::Discord, &token, &missing(), false, 1);
    assert_eq!(login.lifecycle_status, "initialized");

    let status = run_action(&mut row, LifecycleActionKind::Status, MultiChannelTransport::Discord, &token, &missing(), true, 2);
    assert_eq!(status.lifecycle_status, "initialized");
    assert_eq!(status.readiness_status, "pass");
    assert!(!status.state_persisted);

    let logout = run_action(&mut row, LifecycleActionKind::Logout, MultiChannelTransport::Discord, &token, &missing(), true, 3);
    assert_eq!(logout.lifecycle_status, "logged_out");
    assert_eq!(logout.reason_codes, vec!["logout_requested".to_string()]);

    let probe = run_action(&mut row, LifecycleActionKind::Probe, MultiChannelTransport::Discord, &token, &missing(), true, 4);
    assert_eq!(probe.lifecycle_status, "ready");
    assert_eq!(probe.readiness_status, "pass");
    assert_eq!(row.last_login_unix_ms, 1);
    assert_eq!(row.last_logout_unix_ms, 3);
    assert_eq!(row.last_probe_unix_ms, 4);
}

#[test]
fn integration_login_action_resolves_store_backed_secret_when_cli_secret_missing() {
    let token = resolve_lifecycle_secret(
        None,
        &CredentialStoreLookup::Loaded(Some(CredentialRecord {
            secret: Some("store-telegram-secret".to_string()),
            revoked: false,
        })),
    );
    let mut row = MultiChannelLifecycleChannelState::default();
    let report = run_action(&mut row, LifecycleActionKind::Login, MultiChannelTransport::Telegram, &token, &missing(), false, 5);
    assert_eq!(report.lifecycle_status, "initialized");
    assert_eq!(report.token_source, "credential_store");
}

#[test]
fn regression_probe_whatsapp_reports_missing_phone_id_when_token_present() {
    let mut row = MultiChannelLifecycleChannelState::default();
    let report = run_action(&mut row, LifecycleActionKind::Probe, MultiChannelTransport::Whatsapp, &direct("wa-token"), &missing(), true, 6);
    assert_eq!(report.lifecycle_status, "probe_failed");
    assert!(report.reason_codes.contains(&"missing_whatsapp_phone_number_id".to_string()));
}

#[test]
fn secrets_from_revoked_or_unreadable_stores_are_missing() {
    let revoked = resolve_lifecycle_secret(
        None,
        &CredentialStoreLookup::Loaded(Some(CredentialRecord { secret: Some("x".to_string()), revoked: true })),
    );
    assert!(revoked.value.is_none());
    assert_eq!(revoked.source, "credential_store_revoked");
    let unreadable = resolve_lifecycle_secret(None, &CredentialStoreLookup::StoreUnreadable);
    assert!(unreadable.credential_store_unreadable);
    assert_eq!(unreadable.source, "credential_store_error");
    let blank = resolve_lifecycle_secret(Some("   "), &CredentialStoreLookup::Loaded(None));
    assert!(blank.value.is_none());
    assert_eq!(blank.source, "missing");
    assert_eq!(direct(" tok ").value.as_deref(), Some("tok"));
    assert_eq!(direct("tok").source, "cli_or_env");
}

#[test]
fn lifecycle_schema_must_be_current() {
    assert!(check_lifecycle_schema(1).is_ok());
    assert_eq!(
        check_lifecycle_schema(7).unwrap_err(),
        "unsupported multi-channel lifecycle schema 7"
    );
}

#[test]
fn report_renders_one_line_summary() {
    let mut row = MultiChannelLifecycleChannelState::default();
    let report = run_action(&mut row, LifecycleActionKind::Status, MultiChannelTransport::Telegram, &missing(), &missing(), false, 9);
    let line = render_multi_channel_lifecycle_report(&report);
    assert!(line.contains("status"));
    assert!(line.contains("telegram"));
    assert!(line.contains("unknown"));
}
