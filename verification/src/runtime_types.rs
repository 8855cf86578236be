//! Profile defaults and rendering options of the agent runtime.
use vstd::prelude::*;

use crate::text::string_views;

verus! {

/// The MCP context providers a profile enables unless it says otherwise.
pub open spec fn default_context_providers_spec() -> Seq<Seq<char>> {
    seq!["session"@, "skills"@, "channel-store"@]
}

pub fn default_profile_mcp_context_providers() -> (v: Vec<String>)
    ensures
        string_views(v@) == default_context_providers_spec(),
{
    let mut v: Vec<String> = Vec::new();
    v.push(String::from_str("session"));
    v.push(String::from_str("skills"));
    v.push(String::from_str("channel-store"));
    assert(string_views(v@) =~= default_context_providers_spec());
    v
}

/// MCP settings of a profile.
#[derive(Debug, Clone)]
pub struct ProfileMcpDefaults {
    pub context_providers: Vec<String>,
}

impl Default for ProfileMcpDefaults {
    fn default() -> (d: Self)
        ensures
            string_views(d.context_providers@) == default_context_providers_spec(),
    {
        ProfileMcpDefaults { context_providers: default_profile_mcp_context_providers() }
    }
}

/// How replies are rendered.
#[derive(Debug, Clone, Copy, PartialEq, Eq, Structural)]
pub struct RenderOptions {
    pub stream_output: bool,
    pub stream_delay_ms: u64,
}

impl RenderOptions {
    /// The options the command line asks for.
    pub fn from_cli(stream_output: bool, stream_delay_ms: u64) -> (r: Self)
        ensures
            r == (RenderOptions { stream_output, stream_delay_ms }),
    {
        RenderOptions { stream_output, stream_delay_ms }
    }
}

} // verus!
