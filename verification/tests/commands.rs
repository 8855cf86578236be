use tau_coding_agent::auth_types::ProviderAuthMethod;
use tau_coding_agent::commands::{
    command_file_failed, is_command_line, new_command_file_report, record_command_line,
    run_command_file, session_import_mode_label, CommandFileErrorMode, CommandFileReport,
    CommandLineResult, SessionImportMode,
};
use tau_coding_agent::runtime_types::{
    default_profile_mcp_context_providers, ProfileMcpDefaults, RenderOptions,
};

fn run(mode: CommandFileErrorMode, lines: &[CommandLineResult]) -> (usize, usize, usize, bool, bool) {
    let mut report = new_command_file_report(lines.len());
    for result in lines {
        if record_command_line(&mut report, mode, *result) {
            break;
        }
    }
    (report.executed, report.succeeded, report.failed, report.halted_early, command_file_failed(&report, mode))
}

#[test]
fn fail_fast_stops_at_first_failure() {
    let (c, n, e, x) = (
        CommandLineResult::Continued,
        CommandLineResult::NotACommand,
        CommandLineResult::Errored,
        CommandLineResult::Exited,
    );
    assert_eq!(run(CommandFileErrorMode::FailFast, &[c, n, c]), (2, 1, 1, true, true));
    assert_eq!(run(CommandFileErrorMode::ContinueOnError, &[c, e, c]), (3, 2, 1, false, false));
    assert_eq!(run(CommandFileErrorMode::ContinueOnError, &[c, x, c]), (2, 2, 0, true, false));
}

#[test]
fn only_slash_lines_are_commands() {
    assert!(is_command_line("/help"));
    assert!(!is_command_line("help"));
    assert!(!is_command_line(" /help"));
}

#[test]
fn labels_and_defaults() {
    assert_eq!(session_import_mode_label(SessionImportMode::Merge), "merge");
    assert_eq!(session_import_mode_label(SessionImportMode::Replace), "replace");
    assert_eq!(ProviderAuthMethod::ApiKey.as_str(), "api_key");
    assert_eq!(ProviderAuthMethod::OauthToken.as_str(), "oauth_token");
    assert_eq!(ProviderAuthMethod::Adc.as_str(), "adc");
    assert_eq!(ProviderAuthMethod::SessionToken.as_str(), "session_token");
    assert_eq!(default_profile_mcp_context_providers(), vec!["session", "skills", "channel-store"]);
    assert_eq!(ProfileMcpDefaults::default().context_providers.len(), 3);
    let r = RenderOptions::from_cli(true, 25);
    assert!(r.stream_output);
    assert_eq!(r.stream_delay_ms, 25);
}

#[test]
fn command_file_runs_until_exit_or_fail_fast_failure() {
    let lines: Vec<String> = ["/a", "b", "/exit", "/c"].iter().map(|s| s.to_string()).collect();
    let calls = std::cell::RefCell::new(Vec::new());
    let exec = |i: usize| {
        calls.borrow_mut().push(i);
        if i == 2 {
            CommandLineResult::Exited
        } else {
            CommandLineResult::Continued
        }
    };
    let (report, results) = run_command_file(&lines, CommandFileErrorMode::ContinueOnError, &exec);
    assert_eq!(
        report,
        CommandFileReport { total: 4, executed: 3, succeeded: 2, failed: 1, halted_early: true }
    );
    assert_eq!(
        results,
        vec![CommandLineResult::Continued, CommandLineResult::NotACommand, CommandLineResult::Exited]
    );
    assert_eq!(*calls.borrow(), vec![0, 2]);
    let (report, _) = run_command_file(&lines, CommandFileErrorMode::FailFast, &exec);
    assert_eq!(
        report,
        CommandFileReport { total: 4, executed: 2, succeeded: 1, failed: 1, halted_early: true }
    );
    assert!(command_file_failed(&report, CommandFileErrorMode::FailFast));
    let all: Vec<String> = ["/a", "/b"].iter().map(|s| s.to_string()).collect();
    let (report, _) = run_command_file(&all, CommandFileErrorMode::FailFast, &|_i: usize| CommandLineResult::Continued);
    assert_eq!(
        report,
        CommandFileReport { total: 2, executed: 2, succeeded: 2, failed: 0, halted_early: false }
    );
}
