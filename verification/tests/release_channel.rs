use tau_coding_agent::release_channel::{
    parse_release_channel_command, release_channel_from_store, render_release_channel_error,
    render_release_channel_saved, render_release_channel_show,
    render_release_channel_show_outcome, ReleaseChannel, ReleaseChannelCommand,
    ReleaseChannelError,
};

#[test]
fn unit_parse_release_channel_command_supports_show_and_set() {
    assert_eq!(
        parse_release_channel_command("").expect("default command"),
        ReleaseChannelCommand::Show
    );
    assert_eq!(
        parse_release_channel_command("show").expect("show command"),
        ReleaseChannelCommand::Show
    );
    assert_eq!(
        parse_release_channel_command("set beta").expect("set command"),
        ReleaseChannelCommand::SetChannel(ReleaseChannel::Beta)
    );

    let invalid = parse_release_channel_command("set nightly").expect_err("invalid channel");
    assert!(invalid.to_string().contains("expected stable|beta|dev"));
}

#[test]
fn release_channel_command_usage_errors() {
    assert_eq!(parse_release_channel_command("show all"), Err(ReleaseChannelError::Usage));
    assert_eq!(parse_release_channel_command("set"), Err(ReleaseChannelError::Usage));
    assert_eq!(
        parse_release_channel_command("  set \t dev  "),
        Ok(ReleaseChannelCommand::SetChannel(ReleaseChannel::Dev))
    );
    assert_eq!(
        ReleaseChannelError::Usage.to_string(),
        "usage: /release-channel [show|set <stable|beta|dev>]"
    );
}

#[test]
fn release_channel_store_schema_is_checked() {
    assert_eq!(release_channel_from_store(1, ReleaseChannel::Dev), Ok(ReleaseChannel::Dev));
    let err = release_channel_from_store(99, ReleaseChannel::Stable).unwrap_err();
    assert!(err.to_string().contains("unsupported release channel schema_version 99"));
}

#[test]
fn release_channel_reports_render_exactly() {
    assert_eq!(
        render_release_channel_show("/p.json", None),
        "release channel: path=/p.json channel=stable source=default"
    );
    assert_eq!(
        render_release_channel_show("/p.json", Some(ReleaseChannel::Dev)),
        "release channel: path=/p.json channel=dev source=store"
    );
    assert_eq!(
        render_release_channel_saved("/p.json", ReleaseChannel::Beta),
        "release channel set: path=/p.json channel=beta status=saved"
    );
    assert_eq!(
        render_release_channel_error("/p.json", "boom"),
        "release channel error: path=/p.json error=boom"
    );
    assert_eq!(
        render_release_channel_show_outcome("/p", Err("bad".to_string())),
        "release channel error: path=/p error=bad"
    );
}
