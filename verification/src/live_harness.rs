//! Text handling of the live coding-loop harness: secret redaction, bounded
//! error and context snippets, `git status` parsing, the repair-context
//! rendering, and the acceptance of a provider proof report per harness mode.
use vstd::prelude::*;

use crate::json_text::{first_balanced_json_object, first_balanced_object_spec};
use crate::text::{
    append_chars, append_str, chars_eq_str, chars_of, contains, contains_str, decimal,
    decimal_chars, join, join_chars, lemma_take_push, lines, lines_chars, occurs_at, split_on,
    split_on_chars, split_ws, split_ws_chars, string_of, string_views, strings_of_all, sub_chars,
    trim, trim_chars, views_of,
};

verus! {

/// The scenarios the harness runs.
#[derive(Debug, Clone, Copy, PartialEq, Eq, Structural)]
pub enum HarnessMode {
    Success,
    Resume,
    Blocked,
    ProviderSuccess,
    RealRepo,
}

pub open spec fn harness_mode_name(m: HarnessMode) -> Seq<char> {
    match m {
        HarnessMode::Success => "success"@,
        HarnessMode::Resume => "resume"@,
        HarnessMode::Blocked => "blocked"@,
        HarnessMode::ProviderSuccess => "provider_success"@,
        HarnessMode::RealRepo => "real_repo"@,
    }
}

impl HarnessMode {
    pub fn as_str(self) -> (s: &'static str)
        ensures
            s@ == harness_mode_name(self),
    {
        match self {
            HarnessMode::Success => "success",
            HarnessMode::Resume => "resume",
            HarnessMode::Blocked => "blocked",
            HarnessMode::ProviderSuccess => "provider_success",
            HarnessMode::RealRepo => "real_repo",
        }
    }
}

/// `api-key` or `api_key`, surrounding whitespace ignored.
pub fn provider_auth_mode_is_api_key(auth_mode: &str) -> (b: bool)
    ensures
        b == (trim(auth_mode@) == "api-key"@ || trim(auth_mode@) == "api_key"@),
{
    let ac = chars_of(auth_mode);
    let t = trim_chars(&ac);
    chars_eq_str(&t, "api-key") || chars_eq_str(&t, "api_key")
}

/// The mock reply for a 1-based attempt number (attempt 0 reads as attempt 1).
pub fn mock_provider_response_for_attempt(responses: &Vec<String>, attempt_index: usize) -> (r:
    Option<String>)
    ensures
        ({
            let k = if attempt_index == 0 {
                0
            } else {
                attempt_index - 1
            };
            match r {
                Some(s) => k < responses@.len() && s@ == responses@[k]@,
                None => k >= responses@.len(),
            }
        }),
{
    let k = if attempt_index == 0 {
        0
    } else {
        attempt_index - 1
    };
    if k < responses.len() {
        Some(responses[k].clone())
    } else {
        None
    }
}

// ---------------------------------------------------------------------------
// Redaction and truncation
// ---------------------------------------------------------------------------

/// A token that looks like an API key or names a key variable.
pub open spec fn secret_like(token: Seq<char>) -> bool {
    contains(token, "sk-"@) || contains(token, "sk-proj-"@) || contains(token, "OPENAI_API_KEY"@)
        || contains(token, "ANTHROPIC_API_KEY"@)
}

pub open spec fn redact_token(token: Seq<char>) -> Seq<char> {
    if secret_like(token) {
        "[REDACTED_API_KEY]"@
    } else {
        token
    }
}

/// The whitespace-separated tokens of the text, secret-like ones replaced by
/// `[REDACTED_API_KEY]`, joined by single spaces.
pub open spec fn redact_spec(text: Seq<char>) -> Seq<char> {
    join(split_ws(text).map_values(|t: Seq<char>| redact_token(t)), " "@)
}

/// A pattern without a space found in `a + " " + b` lies in `a` or in `b`.
proof fn lemma_occurs_across_space(a: Seq<char>, b: Seq<char>, p: Seq<char>, i: int)
    requires
        occurs_at(a + " "@ + b, p, i),
        forall|j: int| 0 <= j < p.len() ==> p[j] != ' ',
    ensures
        occurs_at(a, p, i) || occurs_at(b, p, i - a.len() - 1),
{
    reveal_strlit(" ");
    let s = a + " "@ + b;
    if i <= a.len() && a.len() < i + p.len() {
        assert(s[a.len() as int] == ' ');
        assert(p[a.len() - i] == s.subrange(i, i + p.len())[a.len() - i]);
    } else if i + p.len() <= a.len() {
        assert(s.subrange(i, i + p.len()) =~= a.subrange(i, i + p.len()));
    } else {
        assert(s.subrange(i, i + p.len()) =~= b.subrange(i - a.len() - 1, i - a.len() - 1 + p.len()));
    }
}

/// Tokens joined by single spaces hold a space-free pattern only where one of
/// the tokens does.
proof fn lemma_join_spaces_free_of(ts: Seq<Seq<char>>, p: Seq<char>)
    requires
        p.len() > 0,
        forall|j: int| 0 <= j < p.len() ==> p[j] != ' ',
        forall|k: int| 0 <= k < ts.len() ==> !contains(#[trigger] ts[k], p),
    ensures
        !contains(join(ts, " "@), p),
    decreases ts.len(),
{
    if ts.len() == 1 {
        assert(join(ts, " "@) == ts[0]);
    } else if ts.len() > 1 {
        let init = ts.drop_last();
        assert forall|k: int| 0 <= k < init.len() implies !contains(#[trigger] init[k], p) by {
            assert(init[k] == ts[k]);
        }
        lemma_join_spaces_free_of(init, p);
        let a = join(init, " "@);
        let b = ts.last();
        assert(!contains(b, p)) by {
            assert(ts[ts.len() - 1] == b);
        }
        if contains(join(ts, " "@), p) {
            let i = choose|i: int| occurs_at(join(ts, " "@), p, i);
            lemma_occurs_across_space(a, b, p, i);
            assert(occurs_at(a, p, i) ==> contains(a, p));
            assert(occurs_at(b, p, i - a.len() - 1) ==> contains(b, p));
        }
    }
}

proof fn lemma_marker_free(p: Seq<char>)
    requires
        p == "sk-"@ || p == "OPENAI_API_KEY"@ || p == "ANTHROPIC_API_KEY"@,
    ensures
        !contains("[REDACTED_API_KEY]"@, p),
        p.len() > 0,
        forall|j: int| 0 <= j < p.len() ==> p[j] != ' ',
{
    reveal_strlit("sk-");
    reveal_strlit("OPENAI_API_KEY");
    reveal_strlit("ANTHROPIC_API_KEY");
    reveal_strlit("[REDACTED_API_KEY]");
    let r = "[REDACTED_API_KEY]"@;
    if contains(r, p) {
        let i = choose|i: int| occurs_at(r, p, i);
        assert(r.subrange(i, i + p.len())[1] == p[1]);
        assert(r[i + 1] == p[1]);
        if p == "sk-"@ {
            assert(r.subrange(i, i + p.len())[2] == p[2]);
            assert(r[i + 2] == '-');
        } else if p == "OPENAI_API_KEY"@ {
            assert(r.subrange(i, i + p.len())[0] == p[0]);
            assert(r[i] == 'O');
        } else {
            assert(r[i + 1] == 'N');
        }
    }
}

/// No API-key marker survives redaction: the redacted text holds neither
/// `sk-` (so neither `sk-proj-`) nor the name of either key variable.
pub proof fn lemma_redaction_removes_key_markers(text: Seq<char>)
    ensures
        !contains(redact_spec(text), "sk-"@),
        !contains(redact_spec(text), "OPENAI_API_KEY"@),
        !contains(redact_spec(text), "ANTHROPIC_API_KEY"@),
{
    let ts = split_ws(text).map_values(|t: Seq<char>| redact_token(t));
    assert forall|p: Seq<char>|
        p == "sk-"@ || p == "OPENAI_API_KEY"@ || p == "ANTHROPIC_API_KEY"@ implies !contains(
        join(ts, " "@),
        p,
    ) by {
        lemma_marker_free(p);
        assert forall|k: int| 0 <= k < ts.len() implies !contains(#[trigger] ts[k], p) by {
            let t = split_ws(text)[k];
            if !secret_like(t) {
                assert(ts[k] == t);
            } else {
                assert(ts[k] == "[REDACTED_API_KEY]"@);
            }
        }
        lemma_join_spaces_free_of(ts, p);
    }
}

/// Replaces secret-like tokens by `[REDACTED_API_KEY]`.
pub fn redact_secret_like_tokens(text: &str) -> (r: String)
    ensures
        r@ == redact_spec(text@),
{
    let tc = chars_of(text);
    let r = redact_chars(&tc);
    string_of(&r)
}

fn redact_chars(tc: &[char]) -> (r: Vec<char>)
    ensures
        r@ == redact_spec(tc@),
{
    let toks = split_ws_chars(tc);
    let ghost tv = views_of(toks@);
    let ghost mapped = split_ws(tc@).map_values(|t: Seq<char>| redact_token(t));
    let mut out: Vec<Vec<char>> = Vec::new();
    let mut i: usize = 0;
    while i < toks.len()
        invariant
            i <= toks.len(),
            tv == views_of(toks@),
            tv == split_ws(tc@),
            mapped == tv.map_values(|t: Seq<char>| redact_token(t)),
            views_of(out@) == mapped.take(i as int),
        decreases toks.len() - i,
    {
        let tok = &toks[i];
        let secret = contains_str(tok, "sk-") || contains_str(tok, "sk-proj-") || contains_str(
            tok,
            "OPENAI_API_KEY",
        ) || contains_str(tok, "ANTHROPIC_API_KEY");
        let piece = if secret {
            chars_of("[REDACTED_API_KEY]")
        } else {
            sub_chars(tok, 0, tok.len())
        };
        assert(piece@ == redact_token(toks@[i as int]@)) by {
            if !secret {
                assert(piece@ =~= toks@[i as int]@);
            }
        }
        let ghost before = out@;
        out.push(piece);
        proof {
            assert(mapped[i as int] == redact_token(tv[i as int]));
            assert(views_of(out@) =~= views_of(before).push(piece@));
            assert(mapped.take(i as int).push(mapped[i as int]) =~= mapped.take(i + 1));
        }
        i += 1;
    }
    assert(mapped.take(toks.len() as int) =~= mapped);
    join_chars(&out, &chars_of(" "))
}

/// At most `max` characters; a longer text is cut and `suffix` appended.
pub open spec fn truncate_with(s: Seq<char>, max: nat, suffix: Seq<char>) -> Seq<char> {
    if s.len() <= max {
        s
    } else {
        s.take(max as int) + suffix
    }
}

/// Keeps at most `max_chars` characters, marking a cut with `\n[truncated]`.
pub fn truncate_chars(value: &str, max_chars: usize) -> (r: String)
    ensures
        r@ == truncate_with(value@, max_chars as nat, "\n[truncated]"@),
{
    let vc = chars_of(value);
    string_of(&truncate_vec(&vc, max_chars, "\n[truncated]"))
}

fn truncate_vec(vc: &[char], max: usize, suffix: &str) -> (r: Vec<char>)
    ensures
        r@ == truncate_with(vc@, max as nat, suffix@),
{
    if vc.len() <= max {
        return sub_chars(vc, 0, vc.len());
    }
    let mut out = sub_chars(vc, 0, max);
    append_str(&mut out, suffix);
    out
}

/// The limit of [`short_error`], in characters.
pub const MAX_ERROR_CHARS: usize = 600;

/// A rendered error, redacted and cut to 600 characters (a cut ends in `...`).
pub fn short_error(rendered: &str) -> (r: String)
    ensures
        r@ == truncate_with(redact_spec(rendered@), MAX_ERROR_CHARS as nat, "..."@),
{
    let rc = chars_of(rendered);
    let red = redact_chars(&rc);
    string_of(&truncate_vec(&red, MAX_ERROR_CHARS, "..."))
}

/// A snippet of an artifact or of `git` output: redacted, then truncated.
pub fn redacted_snippet(raw: &str, max_chars: usize) -> (r: String)
    ensures
        r@ == truncate_with(redact_spec(raw@), max_chars as nat, "\n[truncated]"@),
{
    let rc = chars_of(raw);
    let red = redact_chars(&rc);
    string_of(&truncate_vec(&red, max_chars, "\n[truncated]"))
}

// ---------------------------------------------------------------------------
// git status
// ---------------------------------------------------------------------------

/// The text after the first `n` bytes of the UTF-8 encoding, when `n` falls on
/// a character boundary (`str::get(n..)`).
pub open spec fn skip_bytes(s: Seq<char>, n: nat) -> Option<Seq<char>>
    decreases s.len(),
{
    if n == 0 {
        Some(s)
    } else if s.len() == 0 {
        None
    } else if crate::text::char_utf8_len(s[0]) <= n {
        skip_bytes(s.drop_first(), (n - crate::text::char_utf8_len(s[0])) as nat)
    } else {
        None
    }
}

fn skip_bytes_exec(s: &[char], n: usize) -> (r: Option<Vec<char>>)
    ensures
        match r {
            Some(v) => skip_bytes(s@, n as nat) == Some(v@),
            None => skip_bytes(s@, n as nat) is None,
        },
{
    let mut i: usize = 0;
    let mut left: usize = n;
    assert(s@.skip(0) =~= s@);
    while left > 0
        invariant
            i <= s.len(),
            skip_bytes(s@.skip(i as int), left as nat) == skip_bytes(s@, n as nat),
        decreases left,
    {
        if i >= s.len() {
            return None;
        }
        let v: u32 = s[i] as u32;
        let w: usize = if v <= 0x7F {
            1
        } else if v <= 0x7FF {
            2
        } else if v <= 0xFFFF {
            3
        } else {
            4
        };
        assert(s@.skip(i as int)[0] == s@[i as int]);
        assert(s@.skip(i as int).drop_first() =~= s@.skip(i + 1));
        if w > left {
            return None;
        }
        left = left - w;
        i += 1;
    }
    Some(sub_chars(s, i, s.len()))
}

/// `p` occurs at `i` and nowhere after it.
pub open spec fn last_occurrence(s: Seq<char>, p: Seq<char>, i: int) -> bool {
    occurs_at(s, p, i) && forall|j: int| i < j ==> !occurs_at(s, p, j)
}

/// The text after the last ` -> ` (the new name of a rename), or all of it.
pub open spec fn after_last_arrow(s: Seq<char>) -> Seq<char> {
    if contains(s, " -> "@) {
        s.skip((choose|i: int| last_occurrence(s, " -> "@, i)) + 4)
    } else {
        s
    }
}

/// The last position of `p` in `s`.
fn rfind(s: &[char], p: &[char]) -> (r: Option<usize>)
    requires
        p@.len() > 0,
    ensures
        match r {
            Some(i) => last_occurrence(s@, p@, i as int),
            None => !contains(s@, p@),
        },
{
    if p.len() > s.len() {
        return None;
    }
    let mut i: usize = s.len() - p.len() + 1;
    while i > 0
        invariant
            0 < p.len() <= s.len(),
            i <= s.len() - p.len() + 1,
            forall|j: int| i <= j ==> !occurs_at(s@, p@, j),
        decreases i,
    {
        if crate::text::occurs_at_exec(s, p, i - 1) {
            return Some(i - 1);
        }
        i -= 1;
    }
    None
}

proof fn lemma_last_occurrence_unique(s: Seq<char>, p: Seq<char>, i: int, k: int)
    requires
        last_occurrence(s, p, i),
        last_occurrence(s, p, k),
    ensures
        i == k,
{
}

fn after_last_arrow_exec(s: &[char]) -> (r: Vec<char>)
    ensures
        r@ == after_last_arrow(s@),
{
    let arrow = chars_of(" -> ");
    proof {
        reveal_strlit(" -> ");
    }
    assert(arrow@.len() == 4);
    match rfind(s, &arrow) {
        Some(i) => {
            assert(i + 4 <= s.len());
            proof {
                let k = choose|k: int| last_occurrence(s@, " -> "@, k);
                lemma_last_occurrence_unique(s@, " -> "@, i as int, k);
            }
            let r = sub_chars(s, i + 4, s.len());
            assert(r@ =~= s@.skip(i + 4));
            r
        },
        None => sub_chars(s, 0, s.len()),
    }
}

/// One `git status --porcelain` line: the path after the three status bytes,
/// trimmed; for a rename the new path. `None` for short or blank lines.
pub open spec fn status_line_path(line: Seq<char>) -> Option<Seq<char>> {
    match skip_bytes(line, 3) {
        None => None,
        Some(rest) => if trim(rest).len() == 0 {
            None
        } else {
            Some(after_last_arrow(trim(rest)))
        },
    }
}

pub open spec fn status_paths_of(ls: Seq<Seq<char>>) -> Seq<Seq<char>>
    decreases ls.len(),
{
    if ls.len() == 0 {
        seq![]
    } else {
        match status_line_path(ls.last()) {
            Some(p) => status_paths_of(ls.drop_last()).push(p),
            None => status_paths_of(ls.drop_last()),
        }
    }
}

/// The changed paths named by `git status --porcelain` output, in order.
pub fn parse_git_status_changed_file_names(raw_status: &str) -> (r: Vec<String>)
    ensures
        string_views(r@) == status_paths_of(lines(raw_status@)),
{
    let rc = chars_of(raw_status);
    let ls = lines_chars(&rc);
    let ghost lv = views_of(ls@);
    let mut out: Vec<Vec<char>> = Vec::new();
    let mut i: usize = 0;
    while i < ls.len()
        invariant
            i <= ls.len(),
            lv == views_of(ls@),
            lv == lines(raw_status@),
            views_of(out@) == status_paths_of(lv.take(i as int)),
        decreases ls.len() - i,
    {
        proof {
            assert(lv.take(i + 1).drop_last() =~= lv.take(i as int));
            assert(lv.take(i + 1).last() == ls@[i as int]@);
        }
        match skip_bytes_exec(&ls[i], 3) {
            None => {},
            Some(rest) => {
                let t = trim_chars(&rest);
                if t.len() > 0 {
                    let p = after_last_arrow_exec(&t);
                    let ghost before = out@;
                    out.push(p);
                    assert(views_of(out@) =~= views_of(before).push(p@));
                }
            },
        }
        i += 1;
    }
    assert(lv.take(ls.len() as int) =~= lv);
    strings_of_all(&out)
}

// ---------------------------------------------------------------------------
// Provider reports
// ---------------------------------------------------------------------------

/// Token usage reported by the provider.
#[derive(Debug, Clone, Copy, PartialEq, Eq)]
pub struct ProviderUsageReport {
    pub input_tokens: u64,
    pub output_tokens: u64,
    pub total_tokens: u64,
    pub cached_input_tokens: u64,
}

/// What one provider attempt proved.
#[derive(Debug, Clone)]
pub struct ProviderProofReport {
    pub attempt_index: usize,
    pub mode: &'static str,
    pub provider: String,
    pub model: String,
    pub dispatched: bool,
    pub parse_status: &'static str,
    pub reason_code: String,
    pub finish_reason: Option<String>,
    pub usage: Option<ProviderUsageReport>,
    pub response_text_bytes: Option<usize>,
    pub response_text_sha256: Option<String>,
    pub edit_relative_path: Option<String>,
    pub edit_reason_code: Option<String>,
    pub repair_context_included: bool,
    pub failed_verifier_count: usize,
    pub diff_context_bytes: Option<usize>,
    pub error: Option<String>,
}

/// The reply parsed, directly or from an extracted JSON candidate.
pub open spec fn parse_succeeded_spec(status: Seq<char>) -> bool {
    status == "parsed"@ || status == "extracted_json"@
}

pub fn provider_parse_succeeded(parse_status: &str) -> (b: bool)
    ensures
        b == parse_succeeded_spec(parse_status@),
{
    let pc = chars_of(parse_status);
    chars_eq_str(&pc, "parsed") || chars_eq_str(&pc, "extracted_json")
}

/// The comma-separated edit paths include `status.txt`.
pub open spec fn edits_status_txt(paths: Seq<char>) -> bool {
    split_on(paths, ',').contains("status.txt"@)
}

/// Provider modes need a dispatched, parsed report (editing `status.txt` in the
/// provider-success scenario); the other modes accept any report.
pub open spec fn report_satisfies_spec(mode: HarnessMode, report: Option<ProviderProofReport>) -> bool {
    match mode {
        HarnessMode::ProviderSuccess => match report {
            Some(r) => r.dispatched && parse_succeeded_spec(r.parse_status@) && match r.edit_relative_path {
                Some(p) => edits_status_txt(p@),
                None => false,
            },
            None => false,
        },
        HarnessMode::RealRepo => match report {
            Some(r) => r.dispatched && parse_succeeded_spec(r.parse_status@),
            None => false,
        },
        _ => true,
    }
}

fn has_status_txt(paths: &str) -> (b: bool)
    ensures
        b == edits_status_txt(paths@),
{
    let pc = chars_of(paths);
    let parts = split_on_chars(&pc, ',');
    let mut i: usize = 0;
    while i < parts.len()
        invariant
            i <= parts.len(),
            views_of(parts@) == split_on(paths@, ','),
            forall|j: int| 0 <= j < i ==> parts@[j]@ != "status.txt"@,
        decreases parts.len() - i,
    {
        if chars_eq_str(&parts[i], "status.txt") {
            assert(views_of(parts@)[i as int] == "status.txt"@);
            return true;
        }
        i += 1;
    }
    assert forall|j: int| 0 <= j < views_of(parts@).len() implies views_of(parts@)[j]
        != "status.txt"@ by {
        assert(views_of(parts@)[j] == parts@[j]@);
    }
    false
}

/// Whether the final provider report satisfies the harness mode.
pub fn provider_report_satisfies_mode(mode: HarnessMode, report: Option<&ProviderProofReport>) -> (b:
    bool)
    ensures
        b == report_satisfies_spec(
            mode,
            match report {
                Some(r) => Some(*r),
                None => None,
            },
        ),
{
    match mode {
        HarnessMode::ProviderSuccess => match report {
            Some(r) => r.dispatched && provider_parse_succeeded(r.parse_status) && match &r.edit_relative_path {
                Some(p) => has_status_txt(p.as_str()),
                None => false,
            },
            None => false,
        },
        HarnessMode::RealRepo => match report {
            Some(r) => r.dispatched && provider_parse_succeeded(r.parse_status),
            None => false,
        },
        _ => true,
    }
}

/// The parse status recorded for a failure reason.
pub open spec fn failure_parse_status(reason_code: Seq<char>) -> Seq<char> {
    if reason_code == "provider_output_malformed"@ {
        "malformed"@
    } else if reason_code == "provider_edit_invalid"@ {
        "invalid_edit"@
    } else {
        "not_parsed"@
    }
}

pub fn failure_parse_status_exec(reason_code: &str) -> (s: &'static str)
    ensures
        s@ == failure_parse_status(reason_code@),
{
    let rc = chars_of(reason_code);
    if chars_eq_str(&rc, "provider_output_malformed") {
        "malformed"
    } else if chars_eq_str(&rc, "provider_edit_invalid") {
        "invalid_edit"
    } else {
        "not_parsed"
    }
}

// ---------------------------------------------------------------------------
// Repair context
// ---------------------------------------------------------------------------

/// One failed verifier run shown to the provider.
#[derive(Debug, Clone)]
pub struct ProviderVerifierFailureContext {
    pub argv: Vec<String>,
    pub exit_status: Option<i32>,
    pub stdout: String,
    pub stderr: String,
}

/// What a repair attempt shows the provider.
#[derive(Debug, Clone)]
pub struct ProviderRepairContext {
    pub failed_verifiers: Vec<ProviderVerifierFailureContext>,
    pub changed_files: Vec<String>,
    pub git_diff: String,
}

/// Decimal rendering of a signed integer.
pub open spec fn int_decimal(v: int) -> Seq<char> {
    if v < 0 {
        seq!['-'] + decimal((-v) as nat)
    } else {
        decimal(v as nat)
    }
}

pub fn i32_decimal(v: i32) -> (r: Vec<char>)
    ensures
        r@ == int_decimal(v as int),
{
    if v < 0 {
        let m: u64 = (-(v as i64)) as u64;
        let d = decimal_chars(m);
        let mut out: Vec<char> = Vec::new();
        out.push('-');
        append_chars(&mut out, &d);
        assert(out@ =~= seq!['-'] + d@);
        out
    } else {
        decimal_chars(v as u64)
    }
}

pub open spec fn exit_status_text(s: Option<i32>) -> Seq<char> {
    match s {
        Some(v) => int_decimal(v as int),
        None => "spawn_failed"@,
    }
}

/// `Failure <n>:` with the argv, exit status and both outputs of one run.
pub open spec fn failure_block(n: nat, f: ProviderVerifierFailureContext) -> Seq<char> {
    "Failure "@ + decimal(n) + ":\nargv: "@ + join(string_views(f.argv@), " "@)
        + "\nexit_status: "@ + exit_status_text(f.exit_status) + "\nstdout:\n"@ + f.stdout@
        + "\nstderr:\n"@ + f.stderr@
}

pub open spec fn failure_blocks(fs: Seq<ProviderVerifierFailureContext>) -> Seq<Seq<char>> {
    Seq::new(fs.len(), |i: int| failure_block((i + 1) as nat, fs[i]))
}

/// The repair section appended to the provider prompt.
pub open spec fn repair_context_text(c: ProviderRepairContext) -> Seq<char> {
    let failed = join(failure_blocks(c.failed_verifiers@), "\n\n"@);
    let changed = if c.changed_files@.len() == 0 {
        "none"@
    } else {
        join(string_views(c.changed_files@), "\n"@)
    };
    "\n\nRepair attempt context:\nThe previous provider edit did not pass verification. Return a targeted JSON patch for the current dirty worktree.\n\nFailed verifier evidence:\n"@
        + failed + "\n\nChanged files:\n"@ + changed + "\n\nCurrent git diff:\n"@ + c.git_diff@
        + "\n"@
}

fn render_failure(n: usize, f: &ProviderVerifierFailureContext) -> (r: Vec<char>)
    ensures
        r@ == failure_block(n as nat, *f),
{
    let mut out = chars_of("Failure ");
    append_chars(&mut out, &decimal_chars(n as u64));
    append_str(&mut out, ":\nargv: ");
    let argv = crate::text::join_strings(&f.argv, " ");
    append_chars(&mut out, &argv);
    append_str(&mut out, "\nexit_status: ");
    match f.exit_status {
        Some(v) => append_chars(&mut out, &i32_decimal(v)),
        None => append_str(&mut out, "spawn_failed"),
    }
    append_str(&mut out, "\nstdout:\n");
    append_str(&mut out, f.stdout.as_str());
    append_str(&mut out, "\nstderr:\n");
    append_str(&mut out, f.stderr.as_str());
    out
}

/// Renders the repair context for the next provider prompt.
pub fn render_provider_repair_context(context: &ProviderRepairContext) -> (r: String)
    requires
        context.failed_verifiers@.len() < usize::MAX,
    ensures
        r@ == repair_context_text(*context),
{
    let mut blocks: Vec<Vec<char>> = Vec::new();
    let ghost fb = failure_blocks(context.failed_verifiers@);
    let mut i: usize = 0;
    while i < context.failed_verifiers.len()
        invariant
            i <= context.failed_verifiers.len() < usize::MAX,
            fb == failure_blocks(context.failed_verifiers@),
            views_of(blocks@) == fb.take(i as int),
        decreases context.failed_verifiers.len() - i,
    {
        let b = render_failure(i + 1, &context.failed_verifiers[i]);
        let ghost before = blocks@;
        blocks.push(b);
        proof {
            assert(views_of(blocks@) =~= views_of(before).push(b@));
            assert(fb.take(i as int).push(fb[i as int]) =~= fb.take(i + 1));
        }
        i += 1;
    }
    assert(fb.take(context.failed_verifiers.len() as int) =~= fb);
    let failed = join_chars(&blocks, &chars_of("\n\n"));
    let changed = if context.changed_files.len() == 0 {
        chars_of("none")
    } else {
        crate::text::join_strings(&context.changed_files, "\n")
    };
    let mut out = chars_of(
        "\n\nRepair attempt context:\nThe previous provider edit did not pass verification. Return a targeted JSON patch for the current dirty worktree.\n\nFailed verifier evidence:\n",
    );
    append_chars(&mut out, &failed);
    append_str(&mut out, "\n\nChanged files:\n");
    append_chars(&mut out, &changed);
    append_str(&mut out, "\n\nCurrent git diff:\n");
    append_str(&mut out, context.git_diff.as_str());
    append_str(&mut out, "\n");
    string_of(&out)
}


/// What the repair context reads of one recorded workspace command.
#[derive(Debug, Clone)]
pub struct CommandEvidenceView {
    pub reason_code: String,
    pub failed: bool,
}

/// A failed verifier run, worth showing to the provider.
pub open spec fn failed_verifier(e: CommandEvidenceView) -> bool {
    crate::text::starts_with(e.reason_code@, "coding_verifier"@) && e.failed
}

/// The positions of the failed verifier runs, newest first.
pub open spec fn newest_failed_verifiers(es: Seq<CommandEvidenceView>) -> Seq<usize>
    decreases es.len(),
{
    if es.len() == 0 {
        seq![]
    } else {
        let rest = newest_failed_verifiers(es.drop_last());
        if failed_verifier(es.last()) {
            seq![(es.len() - 1) as usize] + rest
        } else {
            rest
        }
    }
}

/// The runs a repair prompt shows: the four newest failed verifier runs,
/// newest first.
pub fn repair_failure_positions(evidence: &Vec<CommandEvidenceView>) -> (r: Vec<usize>)
    ensures
        r@ == if newest_failed_verifiers(evidence@).len() <= 4 {
            newest_failed_verifiers(evidence@)
        } else {
            newest_failed_verifiers(evidence@).take(4)
        },
{
    let mut r: Vec<usize> = Vec::new();
    let mut i: usize = 0;
    while i < evidence.len()
        invariant
            i <= evidence.len(),
            r@ == newest_failed_verifiers(evidence@.take(i as int)),
        decreases evidence.len() - i,
    {
        assert(evidence@.take(i + 1).drop_last() =~= evidence@.take(i as int));
        assert(evidence@.take(i + 1).last() == evidence@[i as int]);
        let worthy = crate::text::starts_with_str(
            &chars_of(evidence[i].reason_code.as_str()),
            "coding_verifier",
        ) && evidence[i].failed;
        if worthy {
            let ghost before = r@;
            r.insert(0, i);
            assert(r@ =~= seq![i] + before);
        }
        i += 1;
    }
    assert(evidence@.take(evidence.len() as int) =~= evidence@);
    if r.len() > 4 {
        r.truncate(4);
    }
    r
}

// ---------------------------------------------------------------------------
// The provider prompt
// ---------------------------------------------------------------------------

/// The closing instructions of every provider prompt.
pub const PROVIDER_PROMPT_TAIL: &'static str = "Return valid JSON only. Return a complete edit set for all files needed in this single response; do not rely on later turns. Use either the legacy single-edit shape, this multi-edit shape:\n{\"edits\":[{\"relative_path\":\"path/from/repo/root\",\"contents\":\"file contents\",\"reason_code\":\"provider_fix\"}]}\nor this compact file-map shape:\n{\"files\":{\"path/from/repo/root\":\"file contents\"},\"reason_code\":\"provider_fix\"}";

/// The prompt for one provider attempt.
pub open spec fn provider_prompt_spec(
    goal: Seq<char>,
    repo_root: Seq<char>,
    repo_context: Seq<char>,
    verifier_commands: Seq<Seq<char>>,
    repair_section: Seq<char>,
) -> Seq<char> {
    "Goal:\n"@ + goal + "\n\nRepository root:\n"@ + repo_root + "\n\nRepository context:\n"@
        + repo_context + "\n\nVerifier commands:\n"@ + join(verifier_commands, "\n"@) + "\n"@
        + repair_section + "\n\n"@ + PROVIDER_PROMPT_TAIL@
}

pub open spec fn repair_section_spec(repair: Option<ProviderRepairContext>) -> Seq<char> {
    match repair {
        Some(c) => repair_context_text(c),
        None => seq![],
    }
}

/// The prompt for one provider attempt: the goal, the repository and its
/// context, the verifier commands, the repair context of a repair attempt,
/// and the reply format.
pub fn provider_prompt_text(
    goal: &str,
    repo_root: &str,
    repo_context: &str,
    verifier_commands: &Vec<String>,
    repair: Option<&ProviderRepairContext>,
) -> (r: String)
    requires
        repair matches Some(c) ==> c.failed_verifiers@.len() < usize::MAX,
    ensures
        r@ == provider_prompt_spec(
            goal@,
            repo_root@,
            repo_context@,
            string_views(verifier_commands@),
            repair_section_spec(
                match repair {
                    Some(c) => Some(*c),
                    None => None,
                },
            ),
        ),
{
    let mut out = chars_of("Goal:\n");
    append_str(&mut out, goal);
    append_str(&mut out, "\n\nRepository root:\n");
    append_str(&mut out, repo_root);
    append_str(&mut out, "\n\nRepository context:\n");
    append_str(&mut out, repo_context);
    append_str(&mut out, "\n\nVerifier commands:\n");
    let cmds = crate::text::join_strings(verifier_commands, "\n");
    append_chars(&mut out, &cmds);
    append_str(&mut out, "\n");
    match repair {
        Some(c) => {
            let section = render_provider_repair_context(c);
            append_str(&mut out, section.as_str());
        },
        None => {},
    }
    append_str(&mut out, "\n\n");
    append_str(&mut out, PROVIDER_PROMPT_TAIL);
    string_of(&out)
}

/// A trimmed listing, or `empty` when nothing is left, cut to `max` characters.
pub open spec fn listing_or(s: Seq<char>, empty: Seq<char>, max: nat) -> Seq<char> {
    if trim(s).len() == 0 {
        empty
    } else {
        truncate_with(trim(s), max, "\n[truncated]"@)
    }
}

/// The repository context of a provider prompt.
pub open spec fn repo_context_spec(status: Seq<char>, files: Seq<char>, snippets: Seq<char>) -> Seq<
    char,
> {
    "Git status:\n"@ + listing_or(status, "clean"@, 2000) + "\n\nTracked and untracked files:\n"@
        + listing_or(files, "none"@, 4000) + "\n\nFile snippets:\n"@ + snippets
}

fn listing_or_exec(s: &str, empty: &str, max: usize) -> (r: Vec<char>)
    ensures
        r@ == listing_or(s@, empty@, max as nat),
{
    let t = trim_chars(&chars_of(s));
    if t.len() == 0 {
        chars_of(empty)
    } else {
        truncate_vec(&t, max, "\n[truncated]")
    }
}

/// The repository context from `git status --porcelain`, the file listing and
/// the rendered file snippets.
pub fn provider_repo_context_text(status: &str, files: &str, snippets: &str) -> (r: String)
    ensures
        r@ == repo_context_spec(status@, files@, snippets@),
{
    let mut out = chars_of("Git status:\n");
    append_chars(&mut out, &listing_or_exec(status, "clean", 2000));
    append_str(&mut out, "\n\nTracked and untracked files:\n");
    append_chars(&mut out, &listing_or_exec(files, "none", 4000));
    append_str(&mut out, "\n\nFile snippets:\n");
    append_str(&mut out, snippets);
    string_of(&out)
}

/// A listed file worth a snippet: not blank, not under `.git/` or `.tau/`.
pub open spec fn listed_file(line: Seq<char>) -> bool {
    let t = trim(line);
    &&& t.len() > 0
    &&& !crate::text::starts_with(t, ".git/"@)
    &&& !crate::text::starts_with(t, ".tau/"@)
}

pub open spec fn listed_files(ls: Seq<Seq<char>>) -> Seq<Seq<char>>
    decreases ls.len(),
{
    if ls.len() == 0 {
        seq![]
    } else {
        let p = listed_files(ls.drop_last());
        if listed_file(ls.last()) {
            p.push(trim(ls.last()))
        } else {
            p
        }
    }
}

/// A relative path that stays inside the repository.
pub open spec fn inside_repo(p: Seq<char>) -> bool {
    &&& !(p.len() > 0 && p[0] == '/')
    &&& forall|i: int|
        0 <= i < split_on(p, '/').len() ==> #[trigger] split_on(p, '/')[i] != ".."@
}

pub open spec fn inside_repo_only(ps: Seq<Seq<char>>) -> Seq<Seq<char>>
    decreases ps.len(),
{
    if ps.len() == 0 {
        seq![]
    } else {
        let p = inside_repo_only(ps.drop_last());
        if inside_repo(ps.last()) {
            p.push(ps.last())
        } else {
            p
        }
    }
}

pub open spec fn at_most(ps: Seq<Seq<char>>, n: nat) -> Seq<Seq<char>> {
    if ps.len() <= n {
        ps
    } else {
        ps.take(n as int)
    }
}

/// The files whose snippets the prompt shows: the first twelve listed files,
/// less those that are absolute or climb out with `..`.
pub open spec fn snippet_candidates_spec(files: Seq<char>) -> Seq<Seq<char>> {
    inside_repo_only(at_most(listed_files(lines(files)), 12))
}

fn inside_repo_exec(p: &[char]) -> (b: bool)
    ensures
        b == inside_repo(p@),
{
    if p.len() > 0 && p[0] == '/' {
        return false;
    }
    let segs = split_on_chars(p, '/');
    let mut i: usize = 0;
    while i < segs.len()
        invariant
            i <= segs.len(),
            views_of(segs@) == split_on(p@, '/'),
            forall|j: int| 0 <= j < i ==> split_on(p@, '/')[j] != ".."@,
        decreases segs.len() - i,
    {
        assert(split_on(p@, '/')[i as int] == segs@[i as int]@);
        if chars_eq_str(&segs[i], "..") {
            return false;
        }
        i += 1;
    }
    true
}

/// The files of `git ls-files` output whose snippets a provider prompt shows.
pub fn repo_snippet_candidates(files: &str) -> (r: Vec<String>)
    ensures
        string_views(r@) == snippet_candidates_spec(files@),
{
    let ls = lines_chars(&chars_of(files));
    let ghost lv = views_of(ls@);
    let mut first: Vec<Vec<char>> = Vec::new();
    let mut i: usize = 0;
    while i < ls.len()
        invariant
            i <= ls.len(),
            lv == views_of(ls@),
            lv == lines(files@),
            views_of(first@) == at_most(listed_files(lv.take(i as int)), 12),
        decreases ls.len() - i,
    {
        let ghost before = listed_files(lv.take(i as int));
        assert(lv.take(i + 1).drop_last() =~= lv.take(i as int));
        assert(lv.take(i + 1).last() == ls@[i as int]@);
        let t = trim_chars(&ls[i]);
        let keep = t.len() > 0 && !starts_with_str_exec(&t, ".git/") && !starts_with_str_exec(
            &t,
            ".tau/",
        );
        if keep && first.len() < 12 {
            let ghost old_first = views_of(first@);
            first.push(t);
            assert(views_of(first@) =~= old_first.push(t@));
        }
        proof {
            let after = listed_files(lv.take(i + 1));
            if keep {
                assert(after == before.push(t@));
                if before.len() >= 12 {
                    assert(after.take(12) =~= before.take(12));
                }
            } else {
                assert(after == before);
            }
        }
        i += 1;
    }
    assert(lv.take(ls.len() as int) =~= lv);
    let ghost fv = views_of(first@);
    let mut out: Vec<String> = Vec::new();
    let mut k: usize = 0;
    while k < first.len()
        invariant
            k <= first.len(),
            fv == views_of(first@),
            string_views(out@) == inside_repo_only(fv.take(k as int)),
        decreases first.len() - k,
    {
        assert(fv.take(k + 1).drop_last() =~= fv.take(k as int));
        assert(fv.take(k + 1).last() == first@[k as int]@);
        if inside_repo_exec(&first[k]) {
            let ghost old_out = string_views(out@);
            out.push(string_of(&first[k]));
            assert(string_views(out@) =~= old_out.push(first@[k as int]@));
        }
        k += 1;
    }
    assert(fv.take(first.len() as int) =~= fv);
    out
}

/// One file shown to the provider.
#[derive(Debug, Clone)]
pub struct RepoFileSnippet {
    pub relative_path: String,
    pub contents: String,
}

/// `--- <path> ---` and the redacted contents, cut to 1600 characters.
pub open spec fn snippet_block(s: RepoFileSnippet) -> Seq<char> {
    "--- "@ + s.relative_path@ + " ---\n"@ + truncate_with(
        redact_spec(s.contents@),
        1600,
        "\n[truncated]"@,
    )
}

pub open spec fn snippets_text_spec(ss: Seq<RepoFileSnippet>) -> Seq<char> {
    if ss.len() == 0 {
        "none"@
    } else {
        join(Seq::new(ss.len(), |i: int| snippet_block(ss[i])), "\n\n"@)
    }
}

/// The file snippets of a provider prompt, `none` when no file was read.
pub fn render_repo_file_snippets(snippets: &Vec<RepoFileSnippet>) -> (r: String)
    ensures
        r@ == snippets_text_spec(snippets@),
{
    if snippets.len() == 0 {
        return String::from_str("none");
    }
    let ghost bs = Seq::new(snippets@.len(), |i: int| snippet_block(snippets@[i]));
    let mut blocks: Vec<Vec<char>> = Vec::new();
    let mut i: usize = 0;
    while i < snippets.len()
        invariant
            i <= snippets.len(),
            bs == Seq::new(snippets@.len(), |i: int| snippet_block(snippets@[i])),
            views_of(blocks@) == bs.take(i as int),
        decreases snippets.len() - i,
    {
        let mut b = chars_of("--- ");
        append_str(&mut b, snippets[i].relative_path.as_str());
        append_str(&mut b, " ---\n");
        let body = redacted_snippet(snippets[i].contents.as_str(), 1600);
        append_str(&mut b, body.as_str());
        let ghost before = views_of(blocks@);
        blocks.push(b);
        assert(views_of(blocks@) =~= before.push(bs[i as int]));
        assert(bs.take(i + 1) =~= bs.take(i as int).push(bs[i as int]));
        i += 1;
    }
    assert(bs.take(snippets.len() as int) =~= bs);
    string_of(&join_chars(&blocks, &chars_of("\n\n")))
}

// ---------------------------------------------------------------------------
// Provider edits
// ---------------------------------------------------------------------------

/// One file the provider wants written.
#[derive(Debug, Clone)]
pub struct ProviderEditPayloadEntry {
    pub relative_path: String,
    pub contents: String,
    pub reason_code: Option<String>,
}

/// The three reply shapes: one edit, a list of edits, or a map from path to
/// contents (in key order) with one shared reason code.
#[derive(Debug, Clone)]
pub enum ProviderEditPayload {
    Single(ProviderEditPayloadEntry),
    Multi { edits: Vec<ProviderEditPayloadEntry> },
    FileMap { files: Vec<(String, String)>, reason_code: Option<String> },
}

/// An edit the harness applies inside the disposable repository.
#[derive(Debug, Clone, PartialEq, Eq)]
pub struct ControlledEdit {
    pub relative_path: String,
    pub contents: String,
    pub reason_code: String,
}

/// The path names exactly `status.txt` (trailing `/` and `/.` ignored).
pub open spec fn names_status_txt(p: Seq<char>) -> bool {
    let segs = split_on(p, '/').filter(|x: Seq<char>| x.len() > 0);
    &&& !(p.len() > 0 && p[0] == '/')
    &&& segs.len() >= 1
    &&& segs[0] == "status.txt"@
    &&& forall|i: int| 1 <= i < segs.len() ==> segs[i] == "."@
}

/// The path would leave the repository: absolute, or a `..` component.
pub open spec fn escapes_repo(p: Seq<char>) -> bool {
    (p.len() > 0 && p[0] == '/') || split_on(p, '/').contains(".."@)
}

pub open spec fn with_final_newline(c: Seq<char>) -> Seq<char> {
    if c.len() > 0 && c.last() == '\n' {
        c
    } else {
        c.push('\n')
    }
}

pub open spec fn edit_reason(r: Option<String>) -> Seq<char> {
    match r {
        Some(v) => if trim(v@).len() > 0 {
            trim(v@)
        } else {
            "provider_fix_for_live_loop"@
        },
        None => "provider_fix_for_live_loop"@,
    }
}

/// The edit an entry yields, or why it is refused.
pub open spec fn entry_edit_spec(e: ProviderEditPayloadEntry) -> Result<
    (Seq<char>, Seq<char>, Seq<char>),
    Seq<char>,
> {
    let p = trim(e.relative_path@);
    if p.len() == 0 {
        Err("provider edit path must not be empty"@)
    } else if escapes_repo(p) {
        Err("provider edit path escapes the disposable repo"@)
    } else if names_status_txt(p) && trim(e.contents@) != "pass"@ {
        Err("provider edit contents must make status.txt contain pass"@)
    } else {
        Ok((p, with_final_newline(e.contents@), edit_reason(e.reason_code)))
    }
}

pub open spec fn edit_view(e: ControlledEdit) -> (Seq<char>, Seq<char>, Seq<char>) {
    (e.relative_path@, e.contents@, e.reason_code@)
}

fn non_empty_segments(p: &[char]) -> (r: Vec<Vec<char>>)
    ensures
        views_of(r@) == split_on(p@, '/').filter(|x: Seq<char>| x.len() > 0),
{
    let parts = split_on_chars(p, '/');
    let ghost pv = views_of(parts@);
    let mut out: Vec<Vec<char>> = Vec::new();
    let mut i: usize = 0;
    while i < parts.len()
        invariant
            i <= parts.len(),
            pv == views_of(parts@),
            pv == split_on(p@, '/'),
            views_of(out@) == pv.take(i as int).filter(|x: Seq<char>| x.len() > 0),
        decreases parts.len() - i,
    {
        proof {
            reveal(Seq::filter);
            assert(pv.take(i + 1).drop_last() =~= pv.take(i as int));
            assert(pv.take(i + 1).last() == parts@[i as int]@);
        }
        if parts[i].len() > 0 {
            let seg = sub_chars(&parts[i], 0, parts[i].len());
            assert(seg@ =~= parts@[i as int]@);
            let ghost before = out@;
            out.push(seg);
            assert(views_of(out@) =~= views_of(before).push(seg@));
        }
        i += 1;
    }
    assert(pv.take(parts.len() as int) =~= pv);
    out
}

fn names_status_txt_exec(p: &[char]) -> (b: bool)
    ensures
        b == names_status_txt(p@),
{
    if p.len() > 0 && p[0] == '/' {
        return false;
    }
    let segs = non_empty_segments(p);
    let ghost sv = views_of(segs@);
    if segs.len() == 0 {
        return false;
    }
    assert(sv[0] == segs@[0]@);
    if !chars_eq_str(&segs[0], "status.txt") {
        return false;
    }
    let mut i: usize = 1;
    while i < segs.len()
        invariant
            1 <= i <= segs.len(),
            sv == views_of(segs@),
            sv == split_on(p@, '/').filter(|x: Seq<char>| x.len() > 0),
            !(p@.len() > 0 && p@[0] == '/'),
            sv.len() >= 1,
            sv[0] == "status.txt"@,
            forall|j: int| 1 <= j < i ==> sv[j] == "."@,
        decreases segs.len() - i,
    {
        assert(sv[i as int] == segs@[i as int]@);
        if !chars_eq_str(&segs[i], ".") {
            return false;
        }
        i += 1;
    }
    true
}

fn escapes_repo_exec(p: &[char]) -> (b: bool)
    ensures
        b == escapes_repo(p@),
{
    if p.len() > 0 && p[0] == '/' {
        return true;
    }
    let parts = split_on_chars(p, '/');
    let mut i: usize = 0;
    while i < parts.len()
        invariant
            i <= parts.len(),
            views_of(parts@) == split_on(p@, '/'),
            forall|j: int| 0 <= j < i ==> parts@[j]@ != ".."@,
        decreases parts.len() - i,
    {
        if chars_eq_str(&parts[i], "..") {
            assert(views_of(parts@)[i as int] == ".."@);
            return true;
        }
        i += 1;
    }
    assert forall|j: int| 0 <= j < views_of(parts@).len() implies views_of(parts@)[j] != ".."@ by {
        assert(views_of(parts@)[j] == parts@[j]@);
    }
    false
}

/// Checks one entry and turns it into an edit: the path is trimmed and must
/// stay inside the repository; `status.txt` must end up containing `pass`; the
/// contents gain a final newline; a blank reason code becomes
/// `provider_fix_for_live_loop`.
pub fn provider_payload_entry_to_edit(payload: &ProviderEditPayloadEntry) -> (r: Result<
    ControlledEdit,
    String,
>)
    ensures
        match r {
            Ok(e) => entry_edit_spec(*payload) == Ok::<_, Seq<char>>(edit_view(e)),
            Err(m) => entry_edit_spec(*payload) == Err::<(Seq<char>, Seq<char>, Seq<char>), _>(m@),
        },
{
    let rc = chars_of(payload.relative_path.as_str());
    let p = trim_chars(&rc);
    if p.len() == 0 {
        return Err(String::from_str("provider edit path must not be empty"));
    }
    if escapes_repo_exec(&p) {
        return Err(String::from_str("provider edit path escapes the disposable repo"));
    }
    let cc = chars_of(payload.contents.as_str());
    if names_status_txt_exec(&p) {
        let ct = trim_chars(&cc);
        if !chars_eq_str(&ct, "pass") {
            return Err(String::from_str("provider edit contents must make status.txt contain pass"));
        }
    }
    let mut contents = sub_chars(&cc, 0, cc.len());
    if !(cc.len() > 0 && cc[cc.len() - 1] == '\n') {
        contents.push('\n');
    }
    assert(contents@ == with_final_newline(payload.contents@)) by {
        assert(cc@.subrange(0, cc@.len() as int) =~= cc@);
    }
    let reason = match &payload.reason_code {
        Some(v) => {
            let vc = chars_of(v.as_str());
            let t = trim_chars(&vc);
            if t.len() > 0 {
                t
            } else {
                chars_of("provider_fix_for_live_loop")
            }
        },
        None => chars_of("provider_fix_for_live_loop"),
    };
    Ok(
        ControlledEdit {
            relative_path: string_of(&p),
            contents: string_of(&contents),
            reason_code: string_of(&reason),
        },
    )
}

/// The entries a payload carries, in order.
pub open spec fn payload_entries(p: ProviderEditPayload) -> Seq<ProviderEditPayloadEntry> {
    match p {
        ProviderEditPayload::Single(e) => seq![e],
        ProviderEditPayload::Multi { edits } => edits@,
        ProviderEditPayload::FileMap { files, reason_code } => files@.map_values(
            |f: (String, String)|
                ProviderEditPayloadEntry { relative_path: f.0, contents: f.1, reason_code: reason_code },
        ),
    }
}

/// The first refusal among the entries, if any.
pub open spec fn first_entry_error(es: Seq<ProviderEditPayloadEntry>) -> Option<Seq<char>>
    decreases es.len(),
{
    if es.len() == 0 {
        None
    } else {
        match entry_edit_spec(es[0]) {
            Err(m) => Some(m),
            Ok(_) => first_entry_error(es.drop_first()),
        }
    }
}

fn payload_entry_vec(payload: ProviderEditPayload) -> (r: Vec<ProviderEditPayloadEntry>)
    ensures
        r@ == payload_entries(payload),
{
    match payload {
        ProviderEditPayload::Single(e) => {
            let mut v: Vec<ProviderEditPayloadEntry> = Vec::new();
            v.push(e);
            assert(v@ =~= seq![e]);
            v
        },
        ProviderEditPayload::Multi { edits } => edits,
        ProviderEditPayload::FileMap { files, reason_code } => {
            let ghost target = payload_entries(ProviderEditPayload::FileMap { files, reason_code });
            let mut v: Vec<ProviderEditPayloadEntry> = Vec::new();
            let mut i: usize = 0;
            while i < files.len()
                invariant
                    i <= files.len(),
                    target == files@.map_values(
                        |f: (String, String)|
                            ProviderEditPayloadEntry {
                                relative_path: f.0,
                                contents: f.1,
                                reason_code: reason_code,
                            },
                    ),
                    v@ == target.take(i as int),
                decreases files.len() - i,
            {
                let e = ProviderEditPayloadEntry {
                    relative_path: files[i].0.clone(),
                    contents: files[i].1.clone(),
                    reason_code: match &reason_code {
                        Some(r) => Some(r.clone()),
                        None => None,
                    },
                };
                assert(e == target[i as int]);
                v.push(e);
                assert(v@ =~= target.take(i + 1));
                i += 1;
            }
            assert(target.take(files.len() as int) =~= target);
            v
        },
    }
}

/// Every entry turned into an edit; refused when there are none or when one
/// entry is refused (the first refusal is reported).
pub fn provider_payload_to_edits(payload: ProviderEditPayload) -> (r: Result<
    Vec<ControlledEdit>,
    String,
>)
    ensures
        ({
            let es = payload_entries(payload);
            match r {
                Ok(edits) => es.len() > 0 && first_entry_error(es) is None && edits@.len() == es.len()
                    && forall|i: int|
                    0 <= i < es.len() ==> entry_edit_spec(#[trigger] es[i]) == Ok::<_, Seq<char>>(
                    edit_view(edits@[i])),
                Err(m) => if es.len() == 0 {
                    m@ == "provider edit set must not be empty"@
                } else {
                    first_entry_error(es) == Some(m@)
                },
            }
        }),
{
    let ghost es = payload_entries(payload);
    let entries = payload_entry_vec(payload);
    if entries.len() == 0 {
        return Err(String::from_str("provider edit set must not be empty"));
    }
    let mut edits: Vec<ControlledEdit> = Vec::new();
    let mut i: usize = 0;
    assert(es.skip(0) =~= es);
    while i < entries.len()
        invariant
            i <= entries.len(),
            entries@ == es,
            es == payload_entries(payload),
            es.len() > 0,
            edits@.len() == i,
            first_entry_error(es.skip(i as int)) == first_entry_error(es),
            forall|j: int| 0 <= j < i ==> entry_edit_spec(#[trigger] es[j]) == Ok::<_, Seq<char>>(
                edit_view(edits@[j])),
        decreases entries.len() - i,
    {
        assert(es.skip(i as int)[0] == es[i as int]);
        assert(es.skip(i as int).drop_first() =~= es.skip(i + 1));
        match provider_payload_entry_to_edit(&entries[i]) {
            Err(m) => {
                assert(entry_edit_spec(es[i as int]) == Err::<(Seq<char>, Seq<char>, Seq<char>), _>(m@));
                assert(first_entry_error(es.skip(i as int)) == Some(m@));
                return Err(m);
            },
            Ok(e) => {
                edits.push(e);
            },
        }
        i += 1;
    }
    assert(es.skip(entries.len() as int) =~= Seq::<ProviderEditPayloadEntry>::empty());
    Ok(edits)
}

pub open spec fn edit_paths(es: Seq<ControlledEdit>) -> Seq<Seq<char>> {
    es.map_values(|e: ControlledEdit| e.relative_path@)
}

pub open spec fn edit_reasons(es: Seq<ControlledEdit>) -> Seq<Seq<char>> {
    es.map_values(|e: ControlledEdit| e.reason_code@)
}

/// The edited paths, comma-separated.
pub fn provider_edit_paths_summary(edits: &Vec<ControlledEdit>) -> (r: String)
    ensures
        r@ == join(edit_paths(edits@), ","@),
{
    let mut v: Vec<Vec<char>> = Vec::new();
    let mut i: usize = 0;
    while i < edits.len()
        invariant
            i <= edits.len(),
            views_of(v@) == edit_paths(edits@).take(i as int),
        decreases edits.len() - i,
    {
        let c = chars_of(edits[i].relative_path.as_str());
        let ghost before = v@;
        v.push(c);
        assert(views_of(v@) =~= views_of(before).push(c@));
        assert(views_of(v@) =~= edit_paths(edits@).take(i + 1));
        i += 1;
    }
    assert(edit_paths(edits@).take(edits.len() as int) =~= edit_paths(edits@));
    string_of(&join_chars(&v, &chars_of(",")))
}

/// The reason codes of the edits, comma-separated.
pub fn provider_edit_reason_summary(edits: &Vec<ControlledEdit>) -> (r: String)
    ensures
        r@ == join(edit_reasons(edits@), ","@),
{
    let mut v: Vec<Vec<char>> = Vec::new();
    let mut i: usize = 0;
    while i < edits.len()
        invariant
            i <= edits.len(),
            views_of(v@) == edit_reasons(edits@).take(i as int),
        decreases edits.len() - i,
    {
        let c = chars_of(edits[i].reason_code.as_str());
        let ghost before = v@;
        v.push(c);
        assert(views_of(v@) =~= views_of(before).push(c@));
        assert(views_of(v@) =~= edit_reasons(edits@).take(i + 1));
        i += 1;
    }
    assert(edit_reasons(edits@).take(edits.len() as int) =~= edit_reasons(edits@));
    string_of(&join_chars(&v, &chars_of(",")))
}

// ---------------------------------------------------------------------------
// Report assembly
// ---------------------------------------------------------------------------

/// Name for the lowercase hexadecimal SHA-256 digest of the bytes.
pub uninterp spec fn sha256_hex_spec(bytes: Seq<u8>) -> Seq<char>;

/// `format!("{:x}", sha2::Sha256::digest(bytes))`: the digest as lowercase
/// hexadecimal, a function of the bytes alone.
#[verifier::external_body]
fn sha256_hex(bytes: &[u8]) -> (r: String)
    ensures
        r@ == sha256_hex_spec(bytes@),
{
    format!("{:x}", <sha2::Sha256 as sha2::Digest>::digest(bytes))
}

/// The digest of the UTF-8 encoding of a reply.
pub fn response_sha256(text: &str) -> (r: String)
    ensures
        r@ == sha256_hex_spec(vstd::utf8::encode_utf8(text@)),
{
    sha256_hex(text.as_bytes())
}

pub open spec fn repair_failed_count(repair: Option<&ProviderRepairContext>) -> nat {
    match repair {
        Some(c) => c.failed_verifiers@.len(),
        None => 0,
    }
}

/// A failed attempt's report.
pub fn provider_failure_report(
    attempt_index: usize,
    mode: &'static str,
    provider: &str,
    model: &str,
    dispatched: bool,
    reason_code: &str,
    error: Option<String>,
    response_text_bytes: Option<usize>,
    response_text_sha256: Option<String>,
    usage: Option<ProviderUsageReport>,
    repair: Option<&ProviderRepairContext>,
) -> (r: ProviderProofReport)
    ensures
        r.attempt_index == attempt_index,
        r.mode == mode,
        r.provider@ == provider@,
        r.model@ == model@,
        r.dispatched == dispatched,
        r.parse_status@ == failure_parse_status(reason_code@),
        r.reason_code@ == reason_code@,
        r.finish_reason is None,
        r.usage == usage,
        r.response_text_bytes == response_text_bytes,
        r.response_text_sha256 == response_text_sha256,
        r.edit_relative_path is None,
        r.edit_reason_code is None,
        r.repair_context_included == repair is Some,
        r.failed_verifier_count == repair_failed_count(repair),
        r.diff_context_bytes == match repair {
            Some(c) => Some(crate::text::utf8_len(c.git_diff@) as usize),
            None => None::<usize>,
        },
        r.error == error,
{
    ProviderProofReport {
        attempt_index,
        mode,
        provider: String::from_str(provider),
        model: String::from_str(model),
        dispatched,
        parse_status: failure_parse_status_exec(reason_code),
        reason_code: String::from_str(reason_code),
        finish_reason: None,
        usage,
        response_text_bytes,
        response_text_sha256,
        edit_relative_path: None,
        edit_reason_code: None,
        repair_context_included: repair.is_some(),
        failed_verifier_count: match repair {
            Some(c) => c.failed_verifiers.len(),
            None => 0,
        },
        diff_context_bytes: match repair {
            Some(c) => Some(c.git_diff.as_str().len()),
            None => None,
        },
        error,
    }
}


/// The outcome of one provider reply: edits with their report, or a failure report.
#[derive(Debug, Clone)]
pub enum ProviderEditOutcome {
    Ready { edits: Vec<ControlledEdit>, report: ProviderProofReport },
    Failed(ProviderProofReport),
}

/// Turns a reply into edits and a report. `parsed` holds the payload read from
/// the reply with its parse status (`parsed` or `extracted_json`), or the
/// parser's message. A reply that is no payload is `provider_output_malformed`;
/// a payload with a refused entry is `provider_edit_invalid`; otherwise the
/// edits are ready and the report lists their paths and reason codes.
#[verifier::spinoff_prover]
#[verifier::rlimit(30)]
pub fn provider_edit_from_response(
    attempt_index: usize,
    mode: &'static str,
    provider: &str,
    model: &str,
    repair: Option<&ProviderRepairContext>,
    dispatched: bool,
    finish_reason: Option<String>,
    usage: Option<ProviderUsageReport>,
    response_text: &str,
    parsed: Result<(ProviderEditPayload, &'static str), String>,
) -> (out: ProviderEditOutcome)
    ensures
        ({
            let bytes = Some(crate::text::utf8_len(response_text@) as usize);
            let digest = sha256_hex_spec(vstd::utf8::encode_utf8(response_text@));
            match parsed {
                Err(e) => match out {
                    ProviderEditOutcome::Failed(r) => {
                        &&& r.reason_code@ == "provider_output_malformed"@
                        &&& r.parse_status@ == "malformed"@
                        &&& r.error == Some(e)
                        &&& r.response_text_bytes == bytes
                        &&& opt_view(r.response_text_sha256) == Some(digest)
                        &&& r.attempt_index == attempt_index
                        &&& r.dispatched == dispatched
                        &&& r.edit_relative_path is None
                    },
                    ProviderEditOutcome::Ready { .. } => false,
                },
                Ok((payload, status)) => match provider_payload_to_edits_spec(payload) {
                    Err(m) => match out {
                        ProviderEditOutcome::Failed(r) => {
                            &&& r.reason_code@ == "provider_edit_invalid"@
                            &&& r.parse_status@ == "invalid_edit"@
                            &&& opt_view(r.error) == Some(m)
                            &&& r.response_text_bytes == bytes
                            &&& r.edit_relative_path is None
                        },
                        ProviderEditOutcome::Ready { .. } => false,
                    },
                    Ok(_) => match out {
                        ProviderEditOutcome::Ready { edits, report } => {
                            &&& report.reason_code@ == "provider_edit_parsed"@
                            &&& report.parse_status == status
                            &&& opt_view(report.edit_relative_path) == Some(
                                join(edit_paths(edits@), ","@),
                            )
                            &&& opt_view(report.edit_reason_code) == Some(
                                join(edit_reasons(edits@), ","@),
                            )
                            &&& report.error is None
                            &&& report.finish_reason == finish_reason
                            &&& report.usage == usage
                            &&& report.response_text_bytes == bytes
                            &&& opt_view(report.response_text_sha256) == Some(digest)
                            &&& report.repair_context_included == repair is Some
                            &&& report.attempt_index == attempt_index
                            &&& report.dispatched == dispatched
                            &&& edits@.len() == payload_entries(payload).len()
                            &&& forall|i: int|
                                0 <= i < edits@.len() ==> entry_edit_spec(
                                    #[trigger] payload_entries(payload)[i],
                                ) == Ok::<_, Seq<char>>(edit_view(edits@[i]))
                        },
                        ProviderEditOutcome::Failed(_) => false,
                    },
                },
            }
        }),
{
    let response_text_bytes = response_text.len();
    let digest = response_sha256(response_text);
    match parsed {
        Err(e) => {
            let r = provider_failure_report(
                attempt_index,
                mode,
                provider,
                model,
                dispatched,
                "provider_output_malformed",
                Some(e),
                Some(response_text_bytes),
                Some(digest),
                usage,
                repair,
            );
            proof {
                reveal_strlit("provider_output_malformed");
                reveal_strlit("provider_edit_invalid");
            }
            ProviderEditOutcome::Failed(r)
        },
        Ok((payload, status)) => {
            let ghost pl = payload;
            match provider_payload_to_edits(payload) {
                Err(m) => {
                    let r = provider_failure_report(
                        attempt_index,
                        mode,
                        provider,
                        model,
                        dispatched,
                        "provider_edit_invalid",
                        Some(m),
                        Some(response_text_bytes),
                        Some(digest),
                        usage,
                        repair,
                    );
                    proof {
                        reveal_strlit("provider_output_malformed");
                        reveal_strlit("provider_edit_invalid");
                    }
                    ProviderEditOutcome::Failed(r)
                },
                Ok(edits) => {
                    let paths = provider_edit_paths_summary(&edits);
                    let reasons = provider_edit_reason_summary(&edits);
                    let report = ProviderProofReport {
                        attempt_index,
                        mode,
                        provider: String::from_str(provider),
                        model: String::from_str(model),
                        dispatched,
                        parse_status: status,
                        reason_code: String::from_str("provider_edit_parsed"),
                        finish_reason,
                        usage,
                        response_text_bytes: Some(response_text_bytes),
                        response_text_sha256: Some(digest),
                        edit_relative_path: Some(paths),
                        edit_reason_code: Some(reasons),
                        repair_context_included: repair.is_some(),
                        failed_verifier_count: match repair {
                            Some(c) => c.failed_verifiers.len(),
                            None => 0,
                        },
                        diff_context_bytes: match repair {
                            Some(c) => Some(c.git_diff.as_str().len()),
                            None => None,
                        },
                        error: None,
                    };
                    ProviderEditOutcome::Ready { edits, report }
                },
            }
        },
    }
}

pub open spec fn opt_view(v: Option<String>) -> Option<Seq<char>> {
    match v {
        Some(s) => Some(s@),
        None => None,
    }
}

/// `Ok` when every entry of a non-empty payload is accepted; else the message.
pub open spec fn provider_payload_to_edits_spec(payload: ProviderEditPayload) -> Result<(), Seq<char>> {
    let es = payload_entries(payload);
    if es.len() == 0 {
        Err("provider edit set must not be empty"@)
    } else {
        match first_entry_error(es) {
            Some(m) => Err(m),
            None => Ok(()),
        }
    }
}


// ---------------------------------------------------------------------------
// Reading the payload out of a reply
// ---------------------------------------------------------------------------

/// First position at or after `k` where `p` occurs in `s`, or -1.
pub open spec fn find_from(s: Seq<char>, p: Seq<char>, k: int) -> int
    decreases s.len() + 1 - k,
{
    if k < 0 || k + p.len() > s.len() {
        -1
    } else if occurs_at(s, p, k) {
        k
    } else {
        find_from(s, p, k + 1)
    }
}

pub proof fn lemma_find_from_bounds(s: Seq<char>, p: Seq<char>, k: int)
    ensures
        find_from(s, p, k) == -1 || (k <= find_from(s, p, k) && occurs_at(
            s,
            p,
            find_from(s, p, k),
        )),
    decreases s.len() + 1 - k,
{
    if !(k < 0 || k + p.len() > s.len()) && !occurs_at(s, p, k) {
        lemma_find_from_bounds(s, p, k + 1);
    }
}

proof fn lemma_find_from_first(s: Seq<char>, p: Seq<char>, k: int, i: int)
    requires
        0 <= k <= i,
        occurs_at(s, p, i),
        forall|j: int| k <= j < i ==> !occurs_at(s, p, j),
    ensures
        find_from(s, p, k) == i,
    decreases i - k,
{
    if k < i {
        lemma_find_from_first(s, p, k + 1, i);
    }
}

proof fn lemma_find_from_none(s: Seq<char>, p: Seq<char>, k: int)
    requires
        0 <= k,
        forall|j: int| k <= j ==> !occurs_at(s, p, j),
    ensures
        find_from(s, p, k) == -1,
    decreases s.len() + 1 - k,
{
    if !(k + p.len() > s.len()) {
        lemma_find_from_none(s, p, k + 1);
    }
}

/// `find`: the first occurrence of `p`, if any.
fn find_exec(s: &[char], p: &[char]) -> (r: Option<usize>)
    ensures
        match r {
            Some(i) => find_from(s@, p@, 0) == i,
            None => find_from(s@, p@, 0) == -1,
        },
{
    match crate::text::find_chars(s, p) {
        Some(i) => {
            proof {
                lemma_find_from_first(s@, p@, 0, i as int);
            }
            Some(i)
        },
        None => {
            proof {
                assert forall|j: int| 0 <= j implies !occurs_at(s@, p@, j) by {
                    if occurs_at(s@, p@, j) {
                        assert(contains(s@, p@));
                    }
                }
                lemma_find_from_none(s@, p@, 0);
            }
            None
        },
    }
}

/// `strip_prefix("json")`, else `strip_prefix("JSON")`, else the text itself.
pub open spec fn strip_json_tag(raw: Seq<char>) -> Seq<char> {
    if crate::text::starts_with(raw, "json"@) {
        raw.skip(4)
    } else if crate::text::starts_with(raw, "JSON"@) {
        raw.skip(4)
    } else {
        raw
    }
}

/// `trim_start_matches(['\r', '\n', ' '])`.
pub open spec fn strip_leading_breaks(s: Seq<char>) -> Seq<char>
    decreases s.len(),
{
    if s.len() > 0 && (s[0] == '\r' || s[0] == '\n' || s[0] == ' ') {
        strip_leading_breaks(s.drop_first())
    } else {
        s
    }
}

/// The trimmed, non-empty contents of each pair of triple backticks, an
/// optional `json`/`JSON` tag dropped.
pub open spec fn fence_candidates(s: Seq<char>) -> Seq<Seq<char>>
    decreases s.len(),
{
    let i = find_from(s, "```"@, 0);
    if i < 0 {
        seq![]
    } else {
        proof {
            lemma_find_from_bounds(s, "```"@, 0);
        }
        let rest = s.skip(i + 3);
        let j = find_from(rest, "```"@, 0);
        if j < 0 {
            seq![]
        } else {
            proof {
                lemma_find_from_bounds(rest, "```"@, 0);
                assert("```"@.len() == 3) by {
                    reveal_strlit("```");
                }
            }
            let raw = rest.take(j);
            let c = trim(strip_leading_breaks(strip_json_tag(raw)));
            let tail = fence_candidates(rest.skip(j + 3));
            if c.len() > 0 {
                seq![c] + tail
            } else {
                tail
            }
        }
    }
}

fn strip_leading_breaks_exec(s: &[char]) -> (r: Vec<char>)
    ensures
        r@ == strip_leading_breaks(s@),
{
    let mut lo: usize = 0;
    assert(s@.skip(0) =~= s@);
    while lo < s.len() && (s[lo] == '\r' || s[lo] == '\n' || s[lo] == ' ')
        invariant
            lo <= s.len(),
            strip_leading_breaks(s@.skip(lo as int)) == strip_leading_breaks(s@),
        decreases s.len() - lo,
    {
        assert(s@.skip(lo as int).drop_first() =~= s@.skip(lo + 1));
        lo += 1;
    }
    let r = sub_chars(s, lo, s.len());
    assert(r@ =~= s@.skip(lo as int));
    r
}

/// The fenced candidates of a reply, in order.
pub fn provider_fenced_json_candidates(response_text: &str) -> (r: Vec<String>)
    ensures
        string_views(r@) == fence_candidates(response_text@),
{
    let fence = chars_of("```");
    proof {
        reveal_strlit("```");
        reveal_strlit("json");
        reveal_strlit("JSON");
    }
    let mut out: Vec<String> = Vec::new();
    let mut s = chars_of(response_text);
    let ghost acc: Seq<Seq<char>> = seq![];
    assert(string_views(out@) =~= seq![]);
    loop
        invariant
            fence@ == "```"@,
            fence@.len() == 3,
            string_views(out@) + fence_candidates(s@) == fence_candidates(response_text@),
        ensures
            string_views(out@) == fence_candidates(response_text@),
        decreases s.len(),
    {
        let ghost s0 = s@;
        let i = match find_exec(&s, &fence) {
            Some(i) => i,
            None => {
                assert(fence_candidates(s0) =~= seq![]);
                assert(string_views(out@) + seq![] =~= string_views(out@));
                break;
            },
        };
        proof {
            lemma_find_from_bounds(s0, "```"@, 0);
        }
        let rest = sub_chars(&s, i + 3, s.len());
        assert(rest@ =~= s0.skip(i + 3));
        let j = match find_exec(&rest, &fence) {
            Some(j) => j,
            None => {
                assert(fence_candidates(s0) =~= seq![]);
                assert(string_views(out@) + seq![] =~= string_views(out@));
                break;
            },
        };
        proof {
            lemma_find_from_bounds(rest@, "```"@, 0);
        }
        let raw = sub_chars(&rest, 0, j);
        assert(raw@ =~= rest@.take(j as int));
        proof {
            reveal_strlit("json");
            reveal_strlit("JSON");
        }
        let tagged = if starts_with_str_exec(&raw, "json") || starts_with_str_exec(&raw, "JSON") {
            let t = sub_chars(&raw, 4, raw.len());
            assert(t@ =~= raw@.skip(4));
            t
        } else {
            raw
        };
        let c = trim_chars(&strip_leading_breaks_exec(&tagged));
        let next = sub_chars(&rest, j + 3, rest.len());
        assert(next@ =~= rest@.skip(j + 3));
        let ghost tail = fence_candidates(next@);
        if c.len() > 0 {
            let ghost before = string_views(out@);
            out.push(string_of(&c));
            assert(string_views(out@) =~= before.push(c@));
            assert(fence_candidates(s0) == seq![c@] + tail);
            assert(before + (seq![c@] + tail) =~= before.push(c@) + tail);
        } else {
            assert(fence_candidates(s0) == tail);
        }
        s = next;
    }
    out
}

fn starts_with_str_exec(s: &[char], p: &str) -> (b: bool)
    ensures
        b == crate::text::starts_with(s@, p@),
{
    crate::text::starts_with_str(s, p)
}

/// The candidates the harness tries after the whole reply: the fenced ones,
/// then the first balanced object.
pub open spec fn harness_candidates_spec(text: Seq<char>) -> Seq<Seq<char>> {
    match first_balanced_object_spec(text) {
        Some(o) => fence_candidates(text) + seq![o],
        None => fence_candidates(text),
    }
}

pub fn harness_json_candidates(response_text: &str) -> (r: Vec<String>)
    ensures
        string_views(r@) == harness_candidates_spec(response_text@),
{
    let mut out = provider_fenced_json_candidates(response_text);
    match first_balanced_json_object(&chars_of(response_text)) {
        Some(o) => {
            let ghost before = string_views(out@);
            out.push(string_of(&o));
            assert(string_views(out@) =~= before + seq![o@]);
        },
        None => {},
    }
    out
}

/// Which candidate's parse is used: the whole trimmed reply if it parsed,
/// else the first other candidate (one that differs from the trimmed reply
/// once trimmed) that parsed; `None` if nothing did.
pub open spec fn payload_choice(
    trimmed: Seq<char>,
    candidates: Seq<Seq<char>>,
    direct_ok: bool,
    candidate_ok: Seq<bool>,
) -> Option<int>
    decreases candidates.len(),
{
    if direct_ok {
        Some(-1)
    } else if candidates.len() == 0 || candidate_ok.len() == 0 {
        None
    } else if trim(candidates[0]) != trimmed && candidate_ok[0] {
        Some(0)
    } else {
        match payload_choice(trimmed, candidates.drop_first(), false, candidate_ok.drop_first()) {
            Some(k) => Some(k + 1),
            None => None,
        }
    }
}

/// Reads the payload of a reply. `direct` is the JSON parse of the trimmed
/// reply and `candidate_parses[i]` that of the trimmed `candidates[i]`, as
/// done by the caller's JSON reader.
pub fn select_provider_payload(
    response_text: &str,
    candidates: &Vec<String>,
    direct: Result<ProviderEditPayload, String>,
    candidate_parses: Vec<Option<ProviderEditPayload>>,
) -> (r: Result<(ProviderEditPayload, &'static str), String>)
    requires
        candidates.len() == candidate_parses.len(),
    ensures
        ({
            let ok = candidate_parses@.map_values(|p: Option<ProviderEditPayload>| p is Some);
            match payload_choice(trim(response_text@), string_views(candidates@), direct is Ok, ok) {
                Some(k) => if k == -1 {
                    r matches Ok((p, st)) && Ok::<ProviderEditPayload, String>(p) == direct && st@ == "parsed"@
                } else {
                    r matches Ok((p, st)) && Some(p) == candidate_parses@[k] && st@ == "extracted_json"@
                },
                None => r matches Err(m) && direct matches Err(e) && m@ == "provider response was not valid JSON: "@ + e@,
            }
        }),
{
    let ghost ok = candidate_parses@.map_values(|p: Option<ProviderEditPayload>| p is Some);
    let ghost cv = string_views(candidates@);
    let direct_error = match direct {
        Ok(p) => return Ok((p, "parsed")),
        Err(e) => e,
    };
    let trimmed = trim_chars(&chars_of(response_text));
    let mut parses = candidate_parses;
    let mut i: usize = 0;
    assert(parses@ =~= candidate_parses@.skip(0));
    assert(cv.skip(0) =~= cv);
    assert(ok.skip(0) =~= ok);
    while i < candidates.len()
        invariant
            i <= candidates.len(),
            candidates.len() == candidate_parses.len(),
            parses@ == candidate_parses@.skip(i as int),
            direct is Err,
            trimmed@ == trim(response_text@),
            cv == string_views(candidates@),
            ok.len() == candidate_parses.len(),
            ok == candidate_parses@.map_values(|p: Option<ProviderEditPayload>| p is Some),
            payload_choice(trimmed@, cv, false, ok) == match payload_choice(
                trimmed@,
                cv.skip(i as int),
                false,
                ok.skip(i as int),
            ) {
                Some(k) => Some(k + i),
                None => None::<int>,
            },
        decreases candidates.len() - i,
    {
        let ghost (cr, orr) = (cv.skip(i as int), ok.skip(i as int));
        assert(cr[0] == candidates@[i as int]@);
        assert(orr[0] == (candidate_parses@[i as int] is Some));
        assert(cr.drop_first() =~= cv.skip(i + 1));
        assert(orr.drop_first() =~= ok.skip(i + 1));
        let t = trim_chars(&chars_of(candidates[i].as_str()));
        let ghost before = parses@;
        let taken = parses.remove(0);
        assert(taken == candidate_parses@[i as int]);
        assert(parses@ =~= candidate_parses@.skip(i + 1));
        if !crate::text::chars_eq(&t, &trimmed) {
            match taken {
                Some(p) => {
                    assert(payload_choice(trimmed@, cr, false, orr) == Some(0int));
                    return Ok((p, "extracted_json"));
                },
                None => {},
            }
        }
        i += 1;
    }
    assert(cv.skip(i as int).len() == 0);
    let mut m = chars_of("provider response was not valid JSON: ");
    append_str(&mut m, direct_error.as_str());
    Err(string_of(&m))
}


// ---------------------------------------------------------------------------
// Mission plan of a harness run
// ---------------------------------------------------------------------------

/// What a harness run asks the coding mission to do.
#[derive(Debug, Clone)]
pub struct HarnessMissionPlan {
    pub mission_id: String,
    pub session_key: String,
    pub issue_url: String,
    pub branch_prefix: String,
    pub verifier_commands: Vec<String>,
}

/// The verifier commands of a mode: the operator's in the real-repo mode, a
/// status check in the fixture modes, and a command that cannot start in the
/// blocked mode.
pub open spec fn mode_verifiers(mode: HarnessMode, given: Seq<Seq<char>>) -> Seq<Seq<char>> {
    match mode {
        HarnessMode::RealRepo => given,
        HarnessMode::Blocked => seq!["definitely-not-a-tau-command"@],
        _ => seq!["grep -q pass status.txt"@],
    }
}

/// The plan of a run `run_id` in `mode`; the real-repo mode needs at least one
/// verifier command.
pub fn harness_mission_plan(mode: HarnessMode, run_id: &str, verifier_commands: &Vec<String>) -> (r:
    Result<HarnessMissionPlan, String>)
    ensures
        mode == HarnessMode::RealRepo && verifier_commands.len() == 0 <==> r is Err,
        r matches Err(e) ==> e@ == "real-repo mode requires at least one --verifier-command"@,
        r matches Ok(p) ==> {
            &&& p.mission_id@ == run_id@ + "-"@ + harness_mode_name(mode)
            &&& p.session_key@ == "session-"@ + p.mission_id@
            &&& p.issue_url@ == if mode == HarnessMode::RealRepo {
                "https://github.com/njfio/Tau/issues/3792"@
            } else {
                "https://github.com/njfio/Tau/issues/3654"@
            }
            &&& p.branch_prefix@ == if mode == HarnessMode::RealRepo {
                "codex/issue-3792-real-repo-harness"@
            } else {
                "codex/issue-3654-live-loop"@
            }
            &&& string_views(p.verifier_commands@) == mode_verifiers(
                mode,
                string_views(verifier_commands@),
            )
        },
{
    let mut mission = chars_of(run_id);
    append_str(&mut mission, "-");
    append_str(&mut mission, mode.as_str());
    let mut session = chars_of("session-");
    append_chars(&mut session, &mission);
    let commands: Vec<String> = match mode {
        HarnessMode::RealRepo => {
            if verifier_commands.len() == 0 {
                return Err(String::from_str("real-repo mode requires at least one --verifier-command"));
            }
            let mut v: Vec<String> = Vec::new();
            let mut i: usize = 0;
            while i < verifier_commands.len()
                invariant
                    i <= verifier_commands.len(),
                    v@ == verifier_commands@.take(i as int),
                decreases verifier_commands.len() - i,
            {
                v.push(verifier_commands[i].clone());
                assert(v@ =~= verifier_commands@.take(i + 1));
                i += 1;
            }
            assert(verifier_commands@.take(verifier_commands.len() as int) =~= verifier_commands@);
            v
        },
        HarnessMode::Blocked => {
            let mut v: Vec<String> = Vec::new();
            v.push(String::from_str("definitely-not-a-tau-command"));
            assert(string_views(v@) =~= seq!["definitely-not-a-tau-command"@]);
            v
        },
        _ => {
            let mut v: Vec<String> = Vec::new();
            v.push(String::from_str("grep -q pass status.txt"));
            assert(string_views(v@) =~= seq!["grep -q pass status.txt"@]);
            v
        },
    };
    let real_repo = mode == HarnessMode::RealRepo;
    Ok(
        HarnessMissionPlan {
            mission_id: string_of(&mission),
            session_key: string_of(&session),
            issue_url: if real_repo {
                String::from_str("https://github.com/njfio/Tau/issues/3792")
            } else {
                String::from_str("https://github.com/njfio/Tau/issues/3654")
            },
            branch_prefix: if real_repo {
                String::from_str("codex/issue-3792-real-repo-harness")
            } else {
                String::from_str("codex/issue-3654-live-loop")
            },
            verifier_commands: commands,
        },
    )
}

/// Title, risk notes and rollback notes of the pull-request bundle of a run.
pub fn pr_ready_texts(mode: HarnessMode) -> (r: (&'static str, &'static str, &'static str))
    ensures
        mode == HarnessMode::RealRepo ==> r.0@ == "M334 real-repo autonomous coding harness"@
            && r.1@ == "Risk: temporary real repository worktree validation only"@ && r.2@
            == "Rollback: remove the harness branch/worktree"@,
        mode != HarnessMode::RealRepo ==> r.0@ == "M334 live coding loop fixture"@ && r.1@
            == "Risk: disposable local fixture only"@ && r.2@ == "Rollback: delete the disposable repo"@,
{
    if mode == HarnessMode::RealRepo {
        (
            "M334 real-repo autonomous coding harness",
            "Risk: temporary real repository worktree validation only",
            "Rollback: remove the harness branch/worktree",
        )
    } else {
        (
            "M334 live coding loop fixture",
            "Risk: disposable local fixture only",
            "Rollback: delete the disposable repo",
        )
    }
}

// ---------------------------------------------------------------------------
// Verdict of a run
// ---------------------------------------------------------------------------

/// How a workspace command ended.
#[derive(Debug, Clone, Copy, PartialEq, Eq, Structural)]
pub enum CodingWorkspaceCommandStatus {
    Succeeded,
    Failed,
    Denied,
}

/// The report label of a command status.
pub fn command_status_label(status: CodingWorkspaceCommandStatus) -> (s: &'static str)
    ensures
        s@ == match status {
            CodingWorkspaceCommandStatus::Succeeded => "succeeded"@,
            CodingWorkspaceCommandStatus::Failed => "failed"@,
            CodingWorkspaceCommandStatus::Denied => "denied"@,
        },
{
    match status {
        CodingWorkspaceCommandStatus::Succeeded => "succeeded",
        CodingWorkspaceCommandStatus::Failed => "failed",
        CodingWorkspaceCommandStatus::Denied => "denied",
    }
}

/// The phases of a coding mission.
#[derive(Debug, Clone, Copy, PartialEq, Eq, Structural)]
pub enum CodingMissionPhase {
    Intake,
    Planned,
    PreparingBranch,
    Executing,
    Verifying,
    PrReady,
    Blocked,
    Completed,
}

/// The report label of a mission phase.
pub fn phase_label(phase: CodingMissionPhase) -> (s: &'static str)
    ensures
        s@ == match phase {
            CodingMissionPhase::Intake => "intake"@,
            CodingMissionPhase::Planned => "planned"@,
            CodingMissionPhase::PreparingBranch => "preparing_branch"@,
            CodingMissionPhase::Executing => "executing"@,
            CodingMissionPhase::Verifying => "verifying"@,
            CodingMissionPhase::PrReady => "pr_ready"@,
            CodingMissionPhase::Blocked => "blocked"@,
            CodingMissionPhase::Completed => "completed"@,
        },
{
    match phase {
        CodingMissionPhase::Intake => "intake",
        CodingMissionPhase::Planned => "planned",
        CodingMissionPhase::PreparingBranch => "preparing_branch",
        CodingMissionPhase::Executing => "executing",
        CodingMissionPhase::Verifying => "verifying",
        CodingMissionPhase::PrReady => "pr_ready",
        CodingMissionPhase::Blocked => "blocked",
        CodingMissionPhase::Completed => "completed",
    }
}

/// What a resumed mission does next.
#[derive(Debug, Clone, Copy, PartialEq, Eq, Structural)]
pub enum CodingMissionResumeAction {
    RunVerifier,
    ApplyEdit,
    VerifyAfterEdit,
    Commit,
    Blocked,
    PrReady,
}

/// The report label of a resume action.
pub fn resume_action_label(action: CodingMissionResumeAction) -> (s: &'static str)
    ensures
        s@ == match action {
            CodingMissionResumeAction::RunVerifier => "run_verifier"@,
            CodingMissionResumeAction::ApplyEdit => "apply_edit"@,
            CodingMissionResumeAction::VerifyAfterEdit => "verify_after_edit"@,
            CodingMissionResumeAction::Commit => "commit"@,
            CodingMissionResumeAction::Blocked => "blocked"@,
            CodingMissionResumeAction::PrReady => "pr_ready"@,
        },
{
    match action {
        CodingMissionResumeAction::RunVerifier => "run_verifier",
        CodingMissionResumeAction::ApplyEdit => "apply_edit",
        CodingMissionResumeAction::VerifyAfterEdit => "verify_after_edit",
        CodingMissionResumeAction::Commit => "commit",
        CodingMissionResumeAction::Blocked => "blocked",
        CodingMissionResumeAction::PrReady => "pr_ready",
    }
}

/// Where a pull request stands.
#[derive(Debug, Clone, Copy, PartialEq, Eq, Structural)]
pub enum CodingMissionPrPublicationStatus {
    ManualReady,
    DraftCreated,
    DraftFailed,
}

/// The report label of a pull-request status.
pub fn pr_status_label(status: CodingMissionPrPublicationStatus) -> (s: &'static str)
    ensures
        s@ == match status {
            CodingMissionPrPublicationStatus::ManualReady => "manual_ready"@,
            CodingMissionPrPublicationStatus::DraftCreated => "draft_created"@,
            CodingMissionPrPublicationStatus::DraftFailed => "draft_failed"@,
        },
{
    match status {
        CodingMissionPrPublicationStatus::ManualReady => "manual_ready",
        CodingMissionPrPublicationStatus::DraftCreated => "draft_created",
        CodingMissionPrPublicationStatus::DraftFailed => "draft_failed",
    }
}

/// The model providers the harness can dispatch to.
#[derive(Debug, Clone, Copy, PartialEq, Eq, Structural)]
pub enum Provider {
    OpenAi,
    OpenRouter,
    Anthropic,
    Google,
}

/// The CLI flag that carries a provider's API key (OpenRouter shares the
/// OpenAI flag).
pub fn provider_api_key_flag(provider: Provider) -> (r: Option<&'static str>)
    ensures
        r matches Some(f) && f@ == match provider {
            Provider::OpenAi | Provider::OpenRouter => "--openai-api-key"@,
            Provider::Anthropic => "--anthropic-api-key"@,
            Provider::Google => "--google-api-key"@,
        },
{
    match provider {
        Provider::OpenAi | Provider::OpenRouter => Some("--openai-api-key"),
        Provider::Anthropic => Some("--anthropic-api-key"),
        Provider::Google => Some("--google-api-key"),
    }
}

/// The edit that makes the verifier pass: `status.txt` holding `pass`.
pub fn pass_status_edit(reason_code: &str) -> (e: ControlledEdit)
    ensures
        e.relative_path@ == "status.txt"@,
        e.contents@ == "pass\n"@,
        e.reason_code@ == reason_code@,
{
    ControlledEdit {
        relative_path: String::from_str("status.txt"),
        contents: String::from_str("pass\n"),
        reason_code: String::from_str(reason_code),
    }
}

/// What a finished run left behind, as the verdict reads it.
#[derive(Debug, Clone)]
pub struct LiveLoopEvidence {
    pub phase_pr_ready: bool,
    pub phase_blocked: bool,
    pub pr_ready_bundle: bool,
    /// A commit was recorded.
    pub commit_recorded: bool,
    /// The last recorded commit has a hash.
    pub commit_hash_recorded: bool,
    /// Statuses of the verifier command runs, in order.
    pub verifier_statuses: Vec<String>,
    pub changed_files_count: usize,
    pub blocked_reason: Option<String>,
}

pub open spec fn has_status(statuses: Seq<Seq<char>>, s: Seq<char>) -> bool {
    statuses.contains(s)
}

/// Whether the run passed. Runs that should succeed need a PR-ready mission
/// with a bundle, a committed hash, a red and then a green verifier run, a
/// provider report fitting the mode, and (real repo) at least two changed
/// files; the blocked run must fail closed without commit or bundle.
pub open spec fn verdict_spec(mode: HarnessMode, e: LiveLoopEvidence, provider: Option<ProviderProofReport>) -> bool {
    match mode {
        HarnessMode::Blocked => e.phase_blocked && opt_view(e.blocked_reason) == Some(
            "verifier_command_failed_to_start"@,
        ) && !e.commit_recorded && !e.pr_ready_bundle,
        _ => {
            &&& e.phase_pr_ready
            &&& e.pr_ready_bundle
            &&& e.commit_hash_recorded
            &&& has_status(string_views(e.verifier_statuses@), "failed"@)
            &&& has_status(string_views(e.verifier_statuses@), "succeeded"@)
            &&& report_satisfies_spec(mode, provider)
            &&& (mode != HarnessMode::RealRepo || e.changed_files_count >= 2)
        },
    }
}

/// A blocked run passes only if it failed closed: one that recorded a commit
/// or produced a PR-ready bundle never passes, and its failure reason is
/// `blocked_case_did_not_fail_closed`. Every other mode passes only with a
/// PR-ready phase and bundle, a recorded commit hash, and both a failed and a
/// succeeded verifier run.
pub proof fn lemma_verdict_requires_mode_evidence(
    mode: HarnessMode,
    e: LiveLoopEvidence,
    provider: Option<ProviderProofReport>,
)
    ensures
        mode == HarnessMode::Blocked && (e.commit_recorded || e.pr_ready_bundle) ==> !verdict_spec(
            mode,
            e,
            provider,
        ),
        mode == HarnessMode::Blocked && verdict_spec(mode, e, provider) ==> e.phase_blocked
            && !e.commit_recorded && !e.pr_ready_bundle,
        verdict_failure_reason(HarnessMode::Blocked) == "blocked_case_did_not_fail_closed"@,
        mode != HarnessMode::Blocked && verdict_spec(mode, e, provider) ==> {
            &&& e.phase_pr_ready
            &&& e.pr_ready_bundle
            &&& e.commit_hash_recorded
            &&& string_views(e.verifier_statuses@).contains("failed"@)
            &&& string_views(e.verifier_statuses@).contains("succeeded"@)
        },
{
}

/// The reason recorded when a run did not pass.
pub open spec fn verdict_failure_reason(mode: HarnessMode) -> Seq<char> {
    match mode {
        HarnessMode::ProviderSuccess => "provider_success_case_missing_required_evidence"@,
        HarnessMode::RealRepo => "real_repo_case_missing_required_evidence"@,
        HarnessMode::Blocked => "blocked_case_did_not_fail_closed"@,
        _ => "success_or_resume_case_missing_required_evidence"@,
    }
}

fn contains_status(statuses: &Vec<String>, s: &str) -> (b: bool)
    ensures
        b == has_status(string_views(statuses@), s@),
{
    let mut i: usize = 0;
    while i < statuses.len()
        invariant
            i <= statuses.len(),
            forall|j: int| 0 <= j < i ==> string_views(statuses@)[j] != s@,
        decreases statuses.len() - i,
    {
        if crate::text::str_eq(statuses[i].as_str(), s) {
            assert(string_views(statuses@)[i as int] == s@);
            return true;
        }
        i += 1;
    }
    false
}

/// The position of the last commit among the recorded git events
/// (`is_commit[i]` says whether the `i`th event created a commit).
pub fn last_commit_position(is_commit: &Vec<bool>) -> (r: Option<usize>)
    ensures
        match r {
            Some(i) => i < is_commit.len() && is_commit@[i as int] && forall|j: int|
                i < j < is_commit.len() ==> !is_commit@[j],
            None => forall|j: int| 0 <= j < is_commit.len() ==> !is_commit@[j],
        },
{
    let mut k: usize = is_commit.len();
    while k > 0
        invariant
            k <= is_commit.len(),
            forall|j: int| k <= j < is_commit.len() ==> !is_commit@[j],
        decreases k,
    {
        if is_commit[k - 1] {
            return Some(k - 1);
        }
        k -= 1;
    }
    None
}

/// The changed files a report lists: the pull-request bundle's, else the last
/// commit's, else none.
pub fn report_changed_files(pr_ready: Option<&Vec<String>>, commit: Option<&Vec<String>>) -> (r: Vec<
    String,
>)
    ensures
        r@ == match pr_ready {
            Some(v) => v@,
            None => match commit {
                Some(c) => c@,
                None => seq![],
            },
        },
{
    match pr_ready {
        Some(v) => v.clone(),
        None => match commit {
            Some(c) => c.clone(),
            None => Vec::new(),
        },
    }
}

/// The branch a report names: the resume checkpoint's, else the pull-request
/// bundle's, else the last commit's; `None` leaves it to the repository's
/// current branch.
pub fn report_branch(checkpoint: Option<&str>, pr_ready: Option<&str>, commit: Option<&str>) -> (r:
    Option<String>)
    ensures
        match r {
            Some(b) => b@ == match (checkpoint, pr_ready, commit) {
                (Some(c), _, _) => c@,
                (None, Some(p), _) => p@,
                (None, None, Some(m)) => m@,
                (None, None, None) => seq![],
            },
            None => checkpoint is None && pr_ready is None && commit is None,
        },
{
    match checkpoint {
        Some(c) => Some(String::from_str(c)),
        None => match pr_ready {
            Some(p) => Some(String::from_str(p)),
            None => match commit {
                Some(m) => Some(String::from_str(m)),
                None => None,
            },
        },
    }
}

/// The provider report a run ends with: its last attempt.
pub fn final_provider_report(attempts: &Vec<ProviderProofReport>) -> (r: Option<&ProviderProofReport>)
    ensures
        match r {
            Some(p) => attempts.len() > 0 && *p == attempts@[attempts.len() - 1],
            None => attempts.len() == 0,
        },
{
    if attempts.len() == 0 {
        None
    } else {
        Some(&attempts[attempts.len() - 1])
    }
}

/// The verdict of a run and, when it failed, its one failure reason.
pub fn live_loop_verdict(
    mode: HarnessMode,
    evidence: &LiveLoopEvidence,
    final_provider: Option<&ProviderProofReport>,
) -> (r: (bool, Vec<String>))
    ensures
        r.0 == verdict_spec(
            mode,
            *evidence,
            match final_provider {
                Some(p) => Some(*p),
                None => None,
            },
        ),
        string_views(r.1@) == if r.0 {
            seq![]
        } else {
            seq![verdict_failure_reason(mode)]
        },
{
    let ok = match mode {
        HarnessMode::Blocked => {
            let reason_ok = match &evidence.blocked_reason {
                Some(b) => crate::text::str_eq(b.as_str(), "verifier_command_failed_to_start"),
                None => false,
            };
            evidence.phase_blocked && reason_ok && !evidence.commit_recorded
                && !evidence.pr_ready_bundle
        },
        _ => {
            evidence.phase_pr_ready && evidence.pr_ready_bundle && evidence.commit_hash_recorded
                && contains_status(&evidence.verifier_statuses, "failed") && contains_status(
                &evidence.verifier_statuses,
                "succeeded",
            ) && provider_report_satisfies_mode(mode, final_provider) && (mode
                != HarnessMode::RealRepo || evidence.changed_files_count >= 2)
        },
    };
    let mut reasons: Vec<String> = Vec::new();
    if !ok {
        let reason = match mode {
            HarnessMode::ProviderSuccess => "provider_success_case_missing_required_evidence",
            HarnessMode::RealRepo => "real_repo_case_missing_required_evidence",
            HarnessMode::Blocked => "blocked_case_did_not_fail_closed",
            _ => "success_or_resume_case_missing_required_evidence",
        };
        reasons.push(String::from_str(reason));
    }
    assert(string_views(reasons@) =~= if ok {
        seq![]
    } else {
        seq![verdict_failure_reason(mode)]
    });
    (ok, reasons)
}

// ---------------------------------------------------------------------------
// Provider attempts
// ---------------------------------------------------------------------------

/// How many provider attempts a run makes: one plus the repair attempts.
pub fn provider_attempt_total(repair_attempts: usize) -> (n: usize)
    ensures
        n == if repair_attempts == usize::MAX { usize::MAX } else { (repair_attempts + 1) as usize },
        n >= 1,
{
    repair_attempts.saturating_add(1)
}

/// The start time of the resume after attempt `attempt_index`:
/// `started + 2000 + 1000 * attempt`, saturating.
pub open spec fn attempt_started_spec(started_unix_ms: u64, attempt_index: usize) -> u64 {
    let a: int = started_unix_ms + 2000;
    let a1: int = if a > u64::MAX { u64::MAX as int } else { a };
    let m: int = attempt_index * 1000;
    let m1: int = if m > u64::MAX { u64::MAX as int } else { m };
    let b: int = a1 + m1;
    (if b > u64::MAX { u64::MAX as int } else { b }) as u64
}

pub fn provider_attempt_started_unix_ms(started_unix_ms: u64, attempt_index: usize) -> (t: u64)
    ensures
        t == attempt_started_spec(started_unix_ms, attempt_index),
{
    let a = started_unix_ms.saturating_add(2000);
    let m = match (attempt_index as u64).checked_mul(1000) {
        Some(v) => v,
        None => u64::MAX,
    };
    a.saturating_add(m)
}

/// What one provider attempt came to.
#[derive(Debug, Clone)]
pub enum ProviderAttemptResult {
    /// The edits were applied and the mission resumed.
    Applied { verifier_passed: bool, pr_ready: bool, blocked: bool },
    /// No edits could be had; the failure report's reason and error.
    Failed { reason_code: String, error: Option<String> },
}

/// What the run does next.
#[derive(Debug, Clone, PartialEq, Eq)]
pub enum ProviderLoopStep {
    /// Ask the provider again, with the repair context.
    NextAttempt { attempt_index: usize },
    /// The run is over with the mission as it stands.
    Finished,
    /// Block the mission with this reason and detail, then stop.
    Block { reason_code: String, detail: String },
}

/// The loop over provider attempts: a run ends as soon as the verifiers pass,
/// the mission is PR-ready or blocked; a failed attempt blocks the mission with
/// its reason; when every attempt was used the mission is blocked as
/// `provider_repair_attempts_exhausted`.
pub fn provider_loop_step(attempt_index: usize, total_attempts: usize, result: ProviderAttemptResult) -> (r:
    ProviderLoopStep)
    requires
        1 <= attempt_index <= total_attempts,
    ensures
        match result {
            ProviderAttemptResult::Applied { verifier_passed, pr_ready, blocked } => if verifier_passed
                || pr_ready || blocked {
                r == ProviderLoopStep::Finished
            } else if attempt_index < total_attempts {
                r == ProviderLoopStep::NextAttempt { attempt_index: (attempt_index + 1) as usize }
            } else {
                r matches ProviderLoopStep::Block { reason_code, detail } && reason_code@
                    == "provider_repair_attempts_exhausted"@ && detail@
                    == "provider verifier repair attempts exhausted before verifiers passed"@
            },
            ProviderAttemptResult::Failed { reason_code: code, error } => r matches ProviderLoopStep::Block {
                reason_code,
                detail,
            } && reason_code@ == code@ && detail@ == match error {
                Some(e) => e@,
                None => code@,
            },
        },
{
    match result {
        ProviderAttemptResult::Applied { verifier_passed, pr_ready, blocked } => {
            if verifier_passed || pr_ready || blocked {
                ProviderLoopStep::Finished
            } else if attempt_index < total_attempts {
                ProviderLoopStep::NextAttempt { attempt_index: attempt_index + 1 }
            } else {
                ProviderLoopStep::Block {
                    reason_code: String::from_str("provider_repair_attempts_exhausted"),
                    detail: String::from_str(
                        "provider verifier repair attempts exhausted before verifiers passed",
                    ),
                }
            }
        },
        ProviderAttemptResult::Failed { reason_code, error } => {
            let detail = match error {
                Some(e) => e,
                None => reason_code.clone(),
            };
            ProviderLoopStep::Block { reason_code, detail }
        },
    }
}

} // verus!
