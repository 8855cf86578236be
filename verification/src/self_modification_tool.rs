//! The decisions of the `self_modification_propose` tool, which lets an
//! autonomous agent request a self-modification *dry-run*.
//!
//! The tool is dry-run only. It runs only when TAU_AUTONOMOUS_SELF_MOD is set to
//! `1` (or `true`, letters in any case); otherwise
//! every call is refused with `autonomous_self_mod_disabled`; the tool stays
//! visible so that the refusal is visible too.
use vstd::prelude::*;

use crate::self_modification_pipeline::{is_dry_run_result, run_dry_run_pipeline};
use crate::self_modification_runtime::{
    SelfModificationConfig, SelfModificationResult, is_default_config, valid_proposal_id,
};
use crate::text::{append_str, ascii_lower_char, chars_of, lower_all, string_of};

verus! {

/// Environment flag operators set to `1` to enable autonomous dry-runs.
pub const AUTONOMOUS_SELF_MOD_ENV: &'static str = "TAU_AUTONOMOUS_SELF_MOD";

/// Canonical tool name exposed to the agent.
pub const TOOL_NAME: &'static str = "self_modification_propose";

/// `str::eq_ignore_ascii_case`.
pub open spec fn eq_ignore_ascii_case(a: Seq<char>, b: Seq<char>) -> bool {
    a.len() == b.len() && lower_all(a) == lower_all(b)
}

pub fn eq_ignore_ascii_case_exec(a: &str, b: &str) -> (r: bool)
    ensures
        r == eq_ignore_ascii_case(a@, b@),
{
    let ac = chars_of(a);
    let bc = chars_of(b);
    if ac.len() != bc.len() {
        return false;
    }
    let mut i: usize = 0;
    while i < ac.len()
        invariant
            i <= ac.len(),
            ac.len() == bc.len(),
            ac@ == a@,
            bc@ == b@,
            forall|j: int| 0 <= j < i ==> lower_all(ac@)[j] == lower_all(bc@)[j],
        decreases ac.len() - i,
    {
        if ascii_lower_char(ac[i]) != ascii_lower_char(bc[i]) {
            assert(lower_all(ac@)[i as int] != lower_all(bc@)[i as int]);
            return false;
        }
        i += 1;
    }
    assert(lower_all(ac@) =~= lower_all(bc@));
    true
}

/// Whether the value of TAU_AUTONOMOUS_SELF_MOD enables the tool: `1`, or `true` in any case.
pub open spec fn autonomy_enabled_spec(value: Option<Seq<char>>) -> bool {
    match value {
        Some(v) => v == "1"@ || eq_ignore_ascii_case(v, "true"@),
        None => false,
    }
}

/// Reads the operator gate from the value of `TAU_AUTONOMOUS_SELF_MOD`.
pub fn autonomous_flag_enabled(value: Option<&str>) -> (b: bool)
    ensures
        b == autonomy_enabled_spec(opt_view(value)),
{
    match value {
        Some(v) => {
            let vc = chars_of(v);
            crate::text::chars_eq_str(&vc, "1") || eq_ignore_ascii_case_exec(v, "true")
        },
        None => false,
    }
}

/// Arguments of the tool.
#[derive(Debug, Clone)]
pub struct ProposeArgs {
    pub target: String,
    pub proposal_id: Option<String>,
    pub workspace_root: Option<String>,
}

/// What a tool call returns: the dry-run result, or a refusal with a reason code.
#[derive(Debug, Clone)]
pub enum ProposeToolOutcome {
    Proposed(SelfModificationResult),
    Refused { reason_code: String, message: String },
}

/// The reason code of a refusal.
pub open spec fn refusal_code(out: ProposeToolOutcome) -> Option<Seq<char>> {
    match out {
        ProposeToolOutcome::Refused { reason_code, .. } => Some(reason_code@),
        ProposeToolOutcome::Proposed(_) => None,
    }
}

pub open spec fn opt_view(v: Option<&str>) -> Option<Seq<char>> {
    match v {
        Some(s) => Some(s@),
        None => None,
    }
}

/// The propose tool; dry-run only.
#[derive(Debug, Clone, Copy)]
pub struct SelfModificationProposeTool;

impl SelfModificationProposeTool {
    pub fn new() -> (t: Self)
        ensures
            t == SelfModificationProposeTool,
    {
        SelfModificationProposeTool
    }

    /// Handles one call. `autonomous_gate` is the value of
    /// `TAU_AUTONOMOUS_SELF_MOD`; `arguments` holds the parsed arguments or the
    /// parser's message. The workspace root defaults to `.` and the default
    /// configuration applies.
    pub fn execute(
        &self,
        autonomous_gate: Option<&str>,
        arguments: Result<ProposeArgs, String>,
    ) -> (out: ProposeToolOutcome)
        ensures
            !autonomy_enabled_spec(opt_view(autonomous_gate)) ==> refusal_code(out) == Some(
                "autonomous_self_mod_disabled"@,
            ),
            autonomy_enabled_spec(opt_view(autonomous_gate)) ==> match arguments {
                Err(_) => refusal_code(out) == Some("invalid_arguments"@),
                Ok(args) => match out {
                    ProposeToolOutcome::Proposed(res) => {
                        &&& exists|c: SelfModificationConfig|
                            #![trigger is_default_config(c)]
                            is_default_config(c) && is_dry_run_result(
                                res,
                                match args.workspace_root {
                                    Some(r) => r@,
                                    None => "."@,
                                },
                                args.target@,
                                res.proposal_id@,
                                c,
                            )
                        &&& args.proposal_id matches Some(id) ==> res.proposal_id@ == id@
                    },
                    ProposeToolOutcome::Refused { reason_code, .. } => {
                        &&& reason_code@ == "pipeline_failed"@
                        &&& args.proposal_id matches Some(id) && !valid_proposal_id(id@)
                    },
                },
            },
    {
        if !autonomous_flag_enabled(autonomous_gate) {
            let mut msg = chars_of("autonomous self-modification is disabled; set ");
            append_str(&mut msg, AUTONOMOUS_SELF_MOD_ENV);
            append_str(&mut msg, "=1 to enable dry-runs");
            return ProposeToolOutcome::Refused {
                reason_code: String::from_str("autonomous_self_mod_disabled"),
                message: string_of(&msg),
            };
        }
        let args = match arguments {
            Ok(a) => a,
            Err(err) => {
                let mut msg = chars_of("failed to parse tool arguments: ");
                append_str(&mut msg, err.as_str());
                return ProposeToolOutcome::Refused {
                    reason_code: String::from_str("invalid_arguments"),
                    message: string_of(&msg),
                };
            },
        };
        let workspace_root = match &args.workspace_root {
            Some(root) => root.clone(),
            None => String::from_str("."),
        };
        let config = SelfModificationConfig::default();
        let override_id: Option<&str> = match &args.proposal_id {
            Some(id) => Some(id.as_str()),
            None => None,
        };
        match run_dry_run_pipeline(workspace_root.as_str(), args.target.as_str(), override_id, &config) {
            Ok(result) => {
                assert(is_default_config(config));
                ProposeToolOutcome::Proposed(result)
            },
            Err(err) => ProposeToolOutcome::Refused {
                reason_code: String::from_str("pipeline_failed"),
                message: err.to_string(),
            },
        }
    }
}

impl Default for SelfModificationProposeTool {
    fn default() -> (t: Self) {
        Self::new()
    }
}

} // verus!
