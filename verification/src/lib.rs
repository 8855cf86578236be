//! Verified core of the Tau coding agent: self-modification policy and
//! pipeline, release channels, CLI normalisation, multi-channel lifecycle and
//! runtime decisions, and the provider-repair text handling.
use vstd::prelude::*;

pub mod auth_types;
pub mod autonomous_job;
pub mod cli_args;
pub mod commands;
pub mod json_text;
pub mod live_harness;
pub mod live_rl;
pub mod mission_self_improvement;
pub mod multi_channel_lifecycle;
pub mod multi_channel_runtime;
pub mod openrouter;
pub mod ops_harness_self_improvement;
pub mod release_channel;
pub mod runtime_types;
pub mod self_modification_pipeline;
pub mod self_modification_runtime;
pub mod self_modification_synthesis;
pub mod self_modification_tool;
pub mod text;

verus! {
} // verus!
