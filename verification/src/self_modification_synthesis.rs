//! The decisions of the `self_modification_synthesize` tool, which turns a
//! natural-language intent into a structured self-modification proposal by way
//! of a language model.
//!
//! Gates, in order: the operator gate (`TAU_AUTONOMOUS_SELF_MOD`), the argument
//! checks on the intent, the size of the model's output, and the validation of
//! the proposal the model returned (a workspace-relative ASCII target path with
//! no traversal, and one of the five change types). The tool never applies
//! anything; it reports whether the default policy would auto-apply the target.
use vstd::prelude::*;

use crate::self_modification_runtime::{
    SelfModificationConfig, auto_apply_spec, can_auto_apply, classify_modification_target,
    classify_spec, is_default_config,
};
use crate::self_modification_tool::{AUTONOMOUS_SELF_MOD_ENV, autonomous_flag_enabled, autonomy_enabled_spec, opt_view};
use crate::text::{
    append_str, chars_eq_str, chars_of, contains, contains_str, debug_char, debug_str, push_debug_str, decimal, push_debug_char, decimal_chars, ends_with, ends_with_str,
    is_ascii_alnum, is_ascii_alnum_char, lemma_take_push, starts_with, starts_with_str, string_of,
    sub_chars, trim, trim_bounds, utf8_len, views_of,
};

verus! {

/// Canonical tool name exposed to the agent.
pub const TOOL_NAME: &'static str = "self_modification_synthesize";

/// Maximum bytes accepted from the model before we assume it's run away.
pub const MAX_LLM_OUTPUT_BYTES: usize = 32768;

/// Hard cap on intent length (in characters).
pub const MAX_INTENT_CHARS: usize = 4096;

/// Hard cap on a target path (in bytes).
pub const MAX_TARGET_PATH_BYTES: usize = 4096;

// ---------------------------------------------------------------------------
// Target paths proposed by the model
// ---------------------------------------------------------------------------

pub open spec fn target_char_ok(c: char) -> bool {
    is_ascii_alnum(c) || c == '/' || c == '.' || c == '_' || c == '-' || c == '\\'
}

pub open spec fn first_bad_target_char_index(s: Seq<char>, i: int) -> bool {
    0 <= i < s.len() && !target_char_ok(s[i]) && forall|j: int|
        0 <= j < i ==> target_char_ok(#[trigger] s[j])
}

pub open spec fn first_bad_target_char(s: Seq<char>) -> char {
    s[choose|i: int| first_bad_target_char_index(s, i)]
}

/// Why a proposed target path is refused.
#[derive(Debug, Clone, Copy, PartialEq, Eq, Structural)]
pub enum TargetPathRejection {
    Empty,
    TooLong,
    Absolute,
    Traversal,
    DisallowedChar(char),
}

/// The checks on a proposed target, in order; `byte_len` is its UTF-8 length.
pub open spec fn target_path_check(s: Seq<char>, byte_len: nat) -> Option<TargetPathRejection> {
    if s.len() == 0 {
        Some(TargetPathRejection::Empty)
    } else if byte_len > MAX_TARGET_PATH_BYTES {
        Some(TargetPathRejection::TooLong)
    } else if s[0] == '/' || s[0] == '\\' {
        Some(TargetPathRejection::Absolute)
    } else if contains(s, ".."@) {
        Some(TargetPathRejection::Traversal)
    } else if exists|i: int| 0 <= i < s.len() && !target_char_ok(#[trigger] s[i]) {
        Some(TargetPathRejection::DisallowedChar(first_bad_target_char(s)))
    } else {
        None
    }
}

/// The message of a refused target path.
pub open spec fn target_path_message(r: TargetPathRejection) -> Seq<char> {
    match r {
        TargetPathRejection::Empty => "target path is empty"@,
        TargetPathRejection::TooLong => "target path exceeds 4096 bytes"@,
        TargetPathRejection::Absolute => "target path must be workspace-relative, not absolute"@,
        TargetPathRejection::Traversal => "target path contains parent-directory traversal"@,
        TargetPathRejection::DisallowedChar(ch) => "target path contains disallowed character: "@
            + debug_char(ch),
    }
}

impl TargetPathRejection {
    pub fn to_string(&self) -> (s: String)
        ensures
            s@ == target_path_message(*self),
    {
        match self {
            TargetPathRejection::Empty => String::from_str("target path is empty"),
            TargetPathRejection::TooLong => String::from_str("target path exceeds 4096 bytes"),
            TargetPathRejection::Absolute => String::from_str(
                "target path must be workspace-relative, not absolute",
            ),
            TargetPathRejection::Traversal => String::from_str(
                "target path contains parent-directory traversal",
            ),
            TargetPathRejection::DisallowedChar(ch) => {
                let mut out = chars_of("target path contains disallowed character: ");
                push_debug_char(&mut out, *ch);
                string_of(&out)
            },
        }
    }
}



/// Validates a target path proposed by the model: non-empty, at most 4096
/// bytes, workspace-relative, free of `..`, and only `[A-Za-z0-9/._\-\\]`.
pub fn validate_target_path(target: &str) -> (r: Result<(), TargetPathRejection>)
    ensures
        r matches Ok(_) ==> target_path_check(target@, utf8_len(target@)) is None,
        r matches Err(e) ==> target_path_check(target@, utf8_len(target@)) == Some(e),
{
    let cs = chars_of(target);
    if cs.len() == 0 {
        return Err(TargetPathRejection::Empty);
    }
    if crate::text::utf8_len_exceeds(&cs, MAX_TARGET_PATH_BYTES) {
        return Err(TargetPathRejection::TooLong);
    }
    if cs[0] == '/' || cs[0] == '\\' {
        return Err(TargetPathRejection::Absolute);
    }
    if contains_str(&cs, "..") {
        return Err(TargetPathRejection::Traversal);
    }
    let mut i: usize = 0;
    while i < cs.len()
        invariant
            i <= cs.len(),
            cs@ == target@,
            cs@.len() > 0,
            !(utf8_len(target@) > MAX_TARGET_PATH_BYTES),
            !(cs@[0] == '/' || cs@[0] == '\\'),
            !contains(target@, ".."@),
            forall|j: int| 0 <= j < i ==> target_char_ok(#[trigger] cs@[j]),
        decreases cs.len() - i,
    {
        let ch = cs[i];
        let ok = is_ascii_alnum_char(ch) || ch == '/' || ch == '.' || ch == '_' || ch == '-'
            || ch == '\\';
        if !ok {
            proof {
                assert(first_bad_target_char_index(target@, i as int));
                let k2 = choose|k2: int| first_bad_target_char_index(target@, k2);
                if k2 < i {
                    assert(target_char_ok(cs@[k2]));
                } else if i < k2 {
                    assert(target_char_ok(target@[i as int]));
                }
                assert(first_bad_target_char(target@) == ch);
            }
            return Err(TargetPathRejection::DisallowedChar(ch));
        }
        i += 1;
    }
    Ok(())
}

// ---------------------------------------------------------------------------
// Model output
// ---------------------------------------------------------------------------

/// `str::trim_end_matches` with a non-empty string pattern.
pub open spec fn trim_end_matches(s: Seq<char>, p: Seq<char>) -> Seq<char>
    decreases s.len(),
{
    if p.len() > 0 && ends_with(s, p) {
        trim_end_matches(s.take(s.len() - p.len()), p)
    } else {
        s
    }
}

/// The JSON text inside the model's reply: trimmed, and with a leading
/// ```` ```json ```` or ```` ``` ```` fence and any trailing fences removed.
pub open spec fn llm_json_text_spec(raw: Seq<char>) -> Seq<char> {
    let t = trim(raw);
    if starts_with(t, "```json"@) {
        trim(trim_end_matches(t.skip(7), "```"@))
    } else if starts_with(t, "```"@) {
        trim(trim_end_matches(t.skip(3), "```"@))
    } else {
        t
    }
}

fn trim_end_matches_exec(s: &[char], p: &str) -> (r: Vec<char>)
    requires
        p@.len() > 0,
    ensures
        r@ == trim_end_matches(s@, p@),
{
    let pc = chars_of(p);
    let mut hi: usize = s.len();
    assert(s@.take(hi as int) =~= s@);
    while crate::text::ends_with_chars(&sub_chars(s, 0, hi), &pc)
        invariant
            hi <= s.len(),
            pc@ == p@,
            pc@.len() > 0,
            trim_end_matches(s@.take(hi as int), p@) == trim_end_matches(s@, p@),
        decreases hi,
    {
        assert(s@.take(hi as int).take(hi - pc.len()) =~= s@.take(hi - pc.len()));
        hi = hi - pc.len();
    }
    sub_chars(s, 0, hi)
}

fn trimmed(s: &[char]) -> (r: Vec<char>)
    ensures
        r@ == trim(s@),
{
    let (lo, hi) = trim_bounds(s);
    sub_chars(s, lo, hi)
}

/// The JSON payload of the model's reply, with fences removed.
pub fn llm_json_text(raw: &str) -> (r: String)
    ensures
        r@ == llm_json_text_spec(raw@),
{
    let rc = chars_of(raw);
    let t = trimmed(&rc);
    if starts_with_str(&t, "```json") {
        proof {
            reveal_strlit("```json");
            reveal_strlit("```");
        }
        let rest = sub_chars(&t, 7, t.len());
        assert(rest@ =~= t@.skip(7));
        let inner = trim_end_matches_exec(&rest, "```");
        string_of(&trimmed(&inner))
    } else if starts_with_str(&t, "```") {
        proof {
            reveal_strlit("```");
        }
        let rest = sub_chars(&t, 3, t.len());
        assert(rest@ =~= t@.skip(3));
        let inner = trim_end_matches_exec(&rest, "```");
        string_of(&trimmed(&inner))
    } else {
        string_of(&t)
    }
}

// ---------------------------------------------------------------------------
// Tool flow
// ---------------------------------------------------------------------------

/// Arguments of the tool.
#[derive(Debug, Clone)]
pub struct SynthesizeArgs {
    pub intent: String,
    pub workspace_root: Option<String>,
}

/// The proposal the model returns.
#[derive(Debug, Clone)]
pub struct LlmProposal {
    pub target: String,
    pub change_type: String,
    pub rationale: String,
    pub proposed_diff: Option<String>,
}

/// The tool's successful output.
#[derive(Debug, Clone)]
pub struct SynthesizedProposal {
    pub target: String,
    pub change_type: String,
    pub rationale: String,
    pub proposed_diff: Option<String>,
    pub policy_projected: String,
}

/// A refusal with its reason code.
#[derive(Debug, Clone)]
pub struct SynthesisRefusal {
    pub reason_code: String,
    pub message: String,
}

fn refusal(code: &str, message: Vec<char>) -> (r: SynthesisRefusal)
    ensures
        r.reason_code@ == code@,
        r.message@ == message@,
{
    SynthesisRefusal { reason_code: String::from_str(code), message: string_of(&message) }
}

/// Checks made before the model is called.
pub fn check_synthesis_request(
    autonomous_gate: Option<&str>,
    arguments: Result<SynthesizeArgs, String>,
) -> (r: Result<SynthesizeArgs, SynthesisRefusal>)
    ensures
        !autonomy_enabled_spec(opt_view(autonomous_gate)) ==> (r matches Err(e)
            && e.reason_code@ == "autonomous_self_mod_disabled"@ && e.message@
            == "autonomous self-modification is disabled; set "@ + AUTONOMOUS_SELF_MOD_ENV@
            + "=1 to enable synthesis"@),
        autonomy_enabled_spec(opt_view(autonomous_gate)) ==> match arguments {
            Err(err) => r matches Err(e) && e.reason_code@ == "invalid_arguments"@ && e.message@
                == "failed to parse tool arguments: "@ + err@,
            Ok(args) => if args.intent@.len() > MAX_INTENT_CHARS {
                r matches Err(e) && e.reason_code@ == "intent_too_large"@ && e.message@
                    == "intent must be \u{2264} "@ + decimal(MAX_INTENT_CHARS as nat) + " characters"@
            } else if trim(args.intent@).len() == 0 {
                r matches Err(e) && e.reason_code@ == "invalid_arguments"@ && e.message@
                    == "intent must not be empty"@
            } else {
                r == Ok::<SynthesizeArgs, SynthesisRefusal>(args)
            },
        },
{
    if !autonomous_flag_enabled(autonomous_gate) {
        let mut msg = chars_of("autonomous self-modification is disabled; set ");
        append_str(&mut msg, AUTONOMOUS_SELF_MOD_ENV);
        append_str(&mut msg, "=1 to enable synthesis");
        return Err(refusal("autonomous_self_mod_disabled", msg));
    }
    let args = match arguments {
        Ok(a) => a,
        Err(err) => {
            let mut msg = chars_of("failed to parse tool arguments: ");
            append_str(&mut msg, err.as_str());
            return Err(refusal("invalid_arguments", msg));
        },
    };
    let ic = chars_of(args.intent.as_str());
    if ic.len() > MAX_INTENT_CHARS {
        let mut msg = chars_of("intent must be \u{2264} ");
        let n = decimal_chars(MAX_INTENT_CHARS as u64);
        crate::text::append_chars(&mut msg, &n);
        append_str(&mut msg, " characters");
        return Err(refusal("intent_too_large", msg));
    }
    let (lo, hi) = trim_bounds(&ic);
    if lo == hi {
        return Err(refusal("invalid_arguments", chars_of("intent must not be empty")));
    }
    Ok(args)
}

/// The refusal when the model could not be reached: `llm_call_failed` with the
/// transport's message.
pub fn llm_call_refusal(error: &str) -> (r: SynthesisRefusal)
    ensures
        r.reason_code@ == "llm_call_failed"@,
        r.message@ == error@,
{
    refusal("llm_call_failed", chars_of(error))
}

/// Checks the size of the model's reply and extracts its JSON payload.
pub fn check_llm_output(text: &str) -> (r: Result<String, SynthesisRefusal>)
    ensures
        utf8_len(text@) > MAX_LLM_OUTPUT_BYTES ==> (r matches Err(e)
            && e.reason_code@ == "llm_output_too_large"@ && e.message@
            == "LLM output exceeds 32768 bytes ("@ + decimal(text.len() as nat) + " bytes received)"@),
        utf8_len(text@) <= MAX_LLM_OUTPUT_BYTES ==> (r matches Ok(j) && j@
            == llm_json_text_spec(text@)),
{
    let tc = chars_of(text);
    if crate::text::utf8_len_exceeds(&tc, MAX_LLM_OUTPUT_BYTES) {
        let n = text.len();
        let mut msg = chars_of("LLM output exceeds 32768 bytes (");
        let d = decimal_chars(n as u64);
        crate::text::append_chars(&mut msg, &d);
        append_str(&mut msg, " bytes received)");
        return Err(refusal("llm_output_too_large", msg));
    }
    Ok(llm_json_text(text))
}

pub open spec fn allowed_change_type(t: Seq<char>) -> bool {
    t == "skill"@ || t == "prompt"@ || t == "config"@ || t == "source"@ || t == "other"@
}

/// `auto_apply` when the policy would auto-apply the target, else `would_be_blocked`.
pub open spec fn projection_spec(target: Seq<char>, config: SelfModificationConfig) -> Seq<char> {
    if auto_apply_spec(config, classify_spec(target)) {
        "auto_apply"@
    } else {
        "would_be_blocked"@
    }
}

/// Projects the policy verdict for a target.
pub fn classify_for_projection(target: &str, config: &SelfModificationConfig) -> (r: &'static str)
    ensures
        r@ == projection_spec(target@, *config),
{
    let classified = classify_modification_target(target);
    if can_auto_apply(config, &classified) {
        "auto_apply"
    } else {
        "would_be_blocked"
    }
}

/// Validates the proposal parsed from the model's reply (`parsed` holds the
/// parser's message when the reply was not a proposal) and projects the default
/// policy onto its target.
pub fn finish_synthesis(parsed: Result<LlmProposal, String>) -> (r: Result<
    SynthesizedProposal,
    SynthesisRefusal,
>)
    ensures
        match parsed {
            Err(err) => r matches Err(e) && e.reason_code@ == "llm_output_malformed"@ && e.message@
                == "LLM output is not a valid proposal JSON: "@ + err@,
            Ok(p) => if target_path_check(p.target@, utf8_len(p.target@)) is Some {
                r matches Err(e) && e.reason_code@ == "invalid_target_path"@ && e.message@
                    == target_path_message(target_path_check(p.target@, utf8_len(p.target@))->0)
            } else if !allowed_change_type(p.change_type@) {
                r matches Err(e) && e.reason_code@ == "invalid_change_type"@ && e.message@
                    == "change_type "@ + debug_str(p.change_type@)
                    + " is not one of [\"skill\", \"prompt\", \"config\", \"source\", \"other\"]"@
            } else {
                r matches Ok(out) && out.target@ == p.target@ && out.change_type@
                    == p.change_type@ && out.rationale@ == p.rationale@ && out.proposed_diff
                    == p.proposed_diff && exists|c: SelfModificationConfig|
                    #![trigger is_default_config(c)]
                    is_default_config(c) && out.policy_projected@ == projection_spec(
                        p.target@,
                        c,
                    )
            },
        },
{
    let proposal = match parsed {
        Ok(p) => p,
        Err(err) => {
            let mut msg = chars_of("LLM output is not a valid proposal JSON: ");
            append_str(&mut msg, err.as_str());
            return Err(refusal("llm_output_malformed", msg));
        },
    };
    match validate_target_path(proposal.target.as_str()) {
        Err(e) => {
            let m = e.to_string();
            return Err(refusal("invalid_target_path", chars_of(m.as_str())));
        },
        Ok(()) => {},
    }
    let ct = chars_of(proposal.change_type.as_str());
    let allowed = chars_eq_str(&ct, "skill") || chars_eq_str(&ct, "prompt") || chars_eq_str(
        &ct,
        "config",
    ) || chars_eq_str(&ct, "source") || chars_eq_str(&ct, "other");
    if !allowed {
        let mut msg = chars_of("change_type ");
        push_debug_str(&mut msg, proposal.change_type.as_str());
        append_str(
            &mut msg,
            " is not one of [\"skill\", \"prompt\", \"config\", \"source\", \"other\"]",
        );
        return Err(refusal("invalid_change_type", msg));
    }
    let config = SelfModificationConfig::default();
    let projected = classify_for_projection(proposal.target.as_str(), &config);
    let out = SynthesizedProposal {
        target: proposal.target,
        change_type: proposal.change_type,
        rationale: proposal.rationale,
        proposed_diff: proposal.proposed_diff,
        policy_projected: String::from_str(projected),
    };
    assert(is_default_config(config));
    Ok(out)
}

} // verus!
