//! The `/release-channel` command: parsing, the store's schema check and the
//! messages the command prints. Reading and writing the store file is the
//! caller's work.
use vstd::prelude::*;

use crate::text::{
    append_str, chars_eq_str, chars_of, split_ws, split_ws_chars, string_of, views_of,
};

verus! {

pub const RELEASE_CHANNEL_USAGE: &'static str = "usage: /release-channel [show|set <stable|beta|dev>]";

pub const RELEASE_CHANNEL_SCHEMA_VERSION: u32 = 1;

/// A release channel.
#[derive(Debug, Clone, Copy, PartialEq, Eq, Structural)]
pub enum ReleaseChannel {
    Stable,
    Beta,
    Dev,
}

pub open spec fn channel_name(c: ReleaseChannel) -> Seq<char> {
    match c {
        ReleaseChannel::Stable => "stable"@,
        ReleaseChannel::Beta => "beta"@,
        ReleaseChannel::Dev => "dev"@,
    }
}

/// The channel a name denotes (exact, lower case).
pub open spec fn channel_from_name(s: Seq<char>) -> Option<ReleaseChannel> {
    if s == "stable"@ {
        Some(ReleaseChannel::Stable)
    } else if s == "beta"@ {
        Some(ReleaseChannel::Beta)
    } else if s == "dev"@ {
        Some(ReleaseChannel::Dev)
    } else {
        None
    }
}

/// Every channel's name parses back to that channel.
pub proof fn lemma_channel_name_round_trip(c: ReleaseChannel)
    ensures
        channel_from_name(channel_name(c)) == Some(c),
{
    reveal_strlit("stable");
    reveal_strlit("beta");
    reveal_strlit("dev");
    assert("stable"@ != "beta"@) by {
        assert("stable"@.len() != "beta"@.len());
    }
    assert("stable"@ != "dev"@) by {
        assert("stable"@.len() != "dev"@.len());
    }
    assert("beta"@ != "dev"@) by {
        assert("beta"@.len() != "dev"@.len());
    }
}

/// A parsed `/release-channel` command.
#[derive(Debug, Clone, Copy, PartialEq, Eq, Structural)]
pub enum ReleaseChannelCommand {
    Show,
    SetChannel(ReleaseChannel),
}

/// Errors of the release-channel command.
#[derive(Debug, Clone, PartialEq, Eq)]
pub enum ReleaseChannelError {
    /// `set` named an unknown channel.
    InvalidChannel(String),
    /// The arguments match no form of the command.
    Usage,
    /// The store file has another schema version.
    UnsupportedSchema(u32),
}

/// The view of an error: the rejected channel name, or the usage and schema cases.
pub open spec fn error_view(e: ReleaseChannelError) -> (Option<Seq<char>>, bool, Option<u32>) {
    match e {
        ReleaseChannelError::InvalidChannel(v) => (Some(v@), false, None),
        ReleaseChannelError::Usage => (None, true, None),
        ReleaseChannelError::UnsupportedSchema(n) => (None, false, Some(n)),
    }
}

impl ReleaseChannel {
    pub fn as_str(self) -> (s: &'static str)
        ensures
            s@ == channel_name(self),
    {
        match self {
            ReleaseChannel::Stable => "stable",
            ReleaseChannel::Beta => "beta",
            ReleaseChannel::Dev => "dev",
        }
    }

    /// Parses `stable`, `beta` or `dev`.
    pub fn parse_name(value: &str) -> (r: Result<ReleaseChannel, ReleaseChannelError>)
        ensures
            r matches Ok(c) ==> channel_from_name(value@) == Some(c),
            r matches Err(e) ==> channel_from_name(value@) is None && error_view(e) == (
                Some(value@),
                false,
                None::<u32>,
            ),
            r is Ok <==> channel_from_name(value@) is Some,
    {
        let vc = chars_of(value);
        if chars_eq_str(&vc, "stable") {
            Ok(ReleaseChannel::Stable)
        } else if chars_eq_str(&vc, "beta") {
            Ok(ReleaseChannel::Beta)
        } else if chars_eq_str(&vc, "dev") {
            Ok(ReleaseChannel::Dev)
        } else {
            Err(ReleaseChannelError::InvalidChannel(String::from_str(value)))
        }
    }
}

/// The message of a release-channel error.
pub open spec fn release_error_message(e: ReleaseChannelError) -> Seq<char> {
    match e {
        ReleaseChannelError::InvalidChannel(value) => "invalid release channel '"@ + value@
            + "'; expected stable|beta|dev"@,
        ReleaseChannelError::Usage => RELEASE_CHANNEL_USAGE@,
        ReleaseChannelError::UnsupportedSchema(found) => "unsupported release channel schema_version "@
            + crate::text::decimal(found as nat) + " (expected 1)"@,
    }
}

impl ReleaseChannelError {
    /// Human-readable message.
    pub fn to_string(&self) -> (s: String)
        ensures
            s@ == release_error_message(*self),
    {
        match self {
            ReleaseChannelError::InvalidChannel(value) => {
                let mut out = chars_of("invalid release channel '");
                append_str(&mut out, value.as_str());
                append_str(&mut out, "'; expected stable|beta|dev");
                string_of(&out)
            },
            ReleaseChannelError::Usage => String::from_str(RELEASE_CHANNEL_USAGE),
            ReleaseChannelError::UnsupportedSchema(found) => {
                let mut out = chars_of("unsupported release channel schema_version ");
                let d = crate::text::decimal_chars(*found as u64);
                crate::text::append_chars(&mut out, &d);
                append_str(&mut out, " (expected 1)");
                string_of(&out)
            },
        }
    }
}

/// What the arguments of `/release-channel` denote: nothing or `show` shows
/// the channel, `set <name>` sets it; anything else is a usage error.
pub open spec fn release_command_spec(args: Seq<char>) -> Option<ReleaseChannelCommand> {
    let toks = split_ws(args);
    if toks.len() == 0 {
        Some(ReleaseChannelCommand::Show)
    } else if toks.len() == 1 && toks[0] == "show"@ {
        Some(ReleaseChannelCommand::Show)
    } else if toks.len() == 2 && toks[0] == "set"@ {
        match channel_from_name(toks[1]) {
            Some(c) => Some(ReleaseChannelCommand::SetChannel(c)),
            None => None,
        }
    } else {
        None
    }
}

/// Parses the arguments of `/release-channel`.
pub fn parse_release_channel_command(command_args: &str) -> (r: Result<
    ReleaseChannelCommand,
    ReleaseChannelError,
>)
    ensures
        r is Ok <==> release_command_spec(command_args@) is Some,
        r matches Ok(c) ==> release_command_spec(command_args@) == Some(c),
        r matches Err(e) ==> ({
            let toks = split_ws(command_args@);
            if toks.len() == 2 && toks[0] == "set"@ {
                error_view(e) == (Some(toks[1]), false, None::<u32>)
            } else {
                error_view(e) == (None::<Seq<char>>, true, None::<u32>)
            }
        }),
{
    let cs = chars_of(command_args);
    let tokens = split_ws_chars(&cs);
    let ghost toks = views_of(tokens@);
    if tokens.len() == 0 {
        return Ok(ReleaseChannelCommand::Show);
    }
    assert(toks[0] == tokens@[0]@);
    if tokens.len() == 1 && chars_eq_str(&tokens[0], "show") {
        return Ok(ReleaseChannelCommand::Show);
    }
    if tokens.len() == 2 && chars_eq_str(&tokens[0], "set") {
        assert(toks[1] == tokens@[1]@);
        let name = string_of(&tokens[1]);
        return match ReleaseChannel::parse_name(name.as_str()) {
            Ok(c) => Ok(ReleaseChannelCommand::SetChannel(c)),
            Err(e) => Err(e),
        };
    }
    Err(ReleaseChannelError::Usage)
}

/// Schema check of a stored channel.
pub fn release_channel_from_store(schema_version: u32, channel: ReleaseChannel) -> (r: Result<
    ReleaseChannel,
    ReleaseChannelError,
>)
    ensures
        schema_version == RELEASE_CHANNEL_SCHEMA_VERSION ==> r == Ok::<
            ReleaseChannel,
            ReleaseChannelError,
        >(channel),
        schema_version != RELEASE_CHANNEL_SCHEMA_VERSION ==> r == Err::<
            ReleaseChannel,
            ReleaseChannelError,
        >(ReleaseChannelError::UnsupportedSchema(schema_version)),
{
    if schema_version != RELEASE_CHANNEL_SCHEMA_VERSION {
        return Err(ReleaseChannelError::UnsupportedSchema(schema_version));
    }
    Ok(channel)
}

/// `release channel: path=<path> channel=<name> source=<store|default>`; the
/// default channel is `stable`.
pub open spec fn show_message(path: Seq<char>, stored: Option<ReleaseChannel>) -> Seq<char> {
    match stored {
        Some(c) => "release channel: path="@ + path + " channel="@ + channel_name(c)
            + " source=store"@,
        None => "release channel: path="@ + path + " channel="@ + "stable"@ + " source=default"@,
    }
}

pub open spec fn saved_message(path: Seq<char>, c: ReleaseChannel) -> Seq<char> {
    "release channel set: path="@ + path + " channel="@ + channel_name(c) + " status=saved"@
}

pub open spec fn error_message(path: Seq<char>, error: Seq<char>) -> Seq<char> {
    "release channel error: path="@ + path + " error="@ + error
}

/// The report of `show`.
pub fn render_release_channel_show(path: &str, stored: Option<ReleaseChannel>) -> (s: String)
    ensures
        s@ == show_message(path@, stored),
{
    let mut out = chars_of("release channel: path=");
    append_str(&mut out, path);
    append_str(&mut out, " channel=");
    match stored {
        Some(c) => {
            append_str(&mut out, c.as_str());
            append_str(&mut out, " source=store");
        },
        None => {
            append_str(&mut out, ReleaseChannel::Stable.as_str());
            append_str(&mut out, " source=default");
        },
    }
    string_of(&out)
}

/// The report of a successful `set`.
pub fn render_release_channel_saved(path: &str, channel: ReleaseChannel) -> (s: String)
    ensures
        s@ == saved_message(path@, channel),
{
    let mut out = chars_of("release channel set: path=");
    append_str(&mut out, path);
    append_str(&mut out, " channel=");
    append_str(&mut out, channel.as_str());
    append_str(&mut out, " status=saved");
    string_of(&out)
}

/// The report of a failure.
pub fn render_release_channel_error(path: &str, error: &str) -> (s: String)
    ensures
        s@ == error_message(path@, error@),
{
    let mut out = chars_of("release channel error: path=");
    append_str(&mut out, path);
    append_str(&mut out, " error=");
    append_str(&mut out, error);
    string_of(&out)
}

/// What `show` reports of the store's outcome: the stored channel, the default
/// when there is no store, or the error.
pub fn render_release_channel_show_outcome(
    path: &str,
    loaded: Result<Option<ReleaseChannel>, String>,
) -> (s: String)
    ensures
        loaded matches Ok(stored) ==> s@ == show_message(path@, stored),
        loaded matches Err(e) ==> s@ == error_message(path@, e@),
{
    match loaded {
        Ok(stored) => render_release_channel_show(path, stored),
        Err(e) => render_release_channel_error(path, e.as_str()),
    }
}

} // verus!
