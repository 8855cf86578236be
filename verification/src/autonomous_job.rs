//! The operator decisions of the autonomous coding job tool: parsing
//! `--edit` arguments, choosing verifier commands, the provider-repair policy,
//! the intake gate and the issue-to-merge request built from a persisted
//! intake. Running the job, the clock and the environment are the caller's.
use vstd::prelude::*;

use crate::live_harness::ControlledEdit;
use crate::openrouter::{
    EnvSnapshot, first_index, opt_str_view, opt_string_view, resolve_openrouter_env_file,
    resolve_openrouter_repair_model, resolve_setting_spec, model_env_names_spec,
    DEFAULT_OPENROUTER_MODEL, trimmed_non_empty_spec, trimmed_non_empty,
};
use crate::text::{
    chars_of, decimal, decimal_chars, has_char, has_char_exec, index_of, string_of, string_views,
    sub_chars, trim, trim_chars,
};

verus! {

/// Reason code of edits given on the command line.
pub const OPERATOR_CONTROLLED_EDIT_REASON: &'static str = "operator_controlled_edit";

// ---------------------------------------------------------------------------
// --edit arguments
// ---------------------------------------------------------------------------

/// Why an `--edit` argument was refused.
#[derive(Debug, Clone, Copy, PartialEq, Eq, Structural)]
pub enum EditParseError {
    /// No `=` between path and contents.
    MissingEquals,
    /// The path before `=` is blank.
    EmptyPath,
}

impl EditParseError {
    pub fn to_string(&self) -> (s: String)
        ensures
            s@ == edit_error_message(*self),
    {
        match self {
            EditParseError::MissingEquals => String::from_str("--edit must use relative/path=contents"),
            EditParseError::EmptyPath => String::from_str("--edit path must not be empty"),
        }
    }
}

pub open spec fn edit_error_message(e: EditParseError) -> Seq<char> {
    match e {
        EditParseError::MissingEquals => "--edit must use relative/path=contents"@,
        EditParseError::EmptyPath => "--edit path must not be empty"@,
    }
}

/// `path=contents`, split at the first `=`.
pub open spec fn edit_spec(raw: Seq<char>) -> Result<(Seq<char>, Seq<char>), EditParseError> {
    let i = index_of(raw, '=');
    if i == raw.len() {
        Err(EditParseError::MissingEquals)
    } else if trim(raw.take(i)).len() == 0 {
        Err(EditParseError::EmptyPath)
    } else {
        Ok((raw.take(i), raw.skip(i + 1)))
    }
}

/// All edits in order, or the error of the first bad one.
pub open spec fn parse_edits_spec(raws: Seq<Seq<char>>) -> Result<Seq<(Seq<char>, Seq<char>)>, EditParseError>
    decreases raws.len(),
{
    if raws.len() == 0 {
        Ok(seq![])
    } else {
        match parse_edits_spec(raws.drop_last()) {
            Err(e) => Err(e),
            Ok(v) => match edit_spec(raws.last()) {
                Err(e) => Err(e),
                Ok(x) => Ok(v.push(x)),
            },
        }
    }
}

pub open spec fn edit_view(e: ControlledEdit) -> (Seq<char>, Seq<char>) {
    (e.relative_path@, e.contents@)
}

pub open spec fn edit_views(v: Seq<ControlledEdit>) -> Seq<(Seq<char>, Seq<char>)> {
    v.map_values(|e: ControlledEdit| edit_view(e))
}

/// Operator edits, tagged with the operator reason code.
pub open spec fn operator_edits(v: Seq<ControlledEdit>) -> bool {
    forall|i: int| 0 <= i < v.len() ==> (#[trigger] v[i]).reason_code@ == OPERATOR_CONTROLLED_EDIT_REASON@
}

proof fn lemma_parse_edits_error_sticks(raws: Seq<Seq<char>>, k: int)
    requires
        0 <= k <= raws.len(),
        parse_edits_spec(raws.take(k)) is Err,
    ensures
        parse_edits_spec(raws) == parse_edits_spec(raws.take(k)),
    decreases raws.len() - k,
{
    if k < raws.len() {
        assert(raws.take(k + 1).drop_last() =~= raws.take(k));
        lemma_parse_edits_error_sticks(raws, k + 1);
    } else {
        assert(raws.take(k) =~= raws);
    }
}

/// Parses `--edit relative/path=contents` arguments.
pub fn parse_edits(raw_edits: &Vec<String>) -> (r: Result<Vec<ControlledEdit>, EditParseError>)
    ensures
        match (r, parse_edits_spec(string_views(raw_edits@))) {
            (Ok(v), Ok(w)) => edit_views(v@) == w && operator_edits(v@),
            (Err(e), Err(f)) => e == f,
            _ => false,
        },
{
    let ghost raws = string_views(raw_edits@);
    let mut out: Vec<ControlledEdit> = Vec::new();
    let mut i: usize = 0;
    assert(raws.take(0) =~= seq![]);
    assert(edit_views(out@) =~= seq![]);
    while i < raw_edits.len()
        invariant
            i <= raw_edits.len(),
            raws == string_views(raw_edits@),
            parse_edits_spec(raws.take(i as int)) == Ok::<
                Seq<(Seq<char>, Seq<char>)>,
                EditParseError,
            >(edit_views(out@)),
            operator_edits(out@),
        decreases raw_edits.len() - i,
    {
        let raw = chars_of(raw_edits[i].as_str());
        assert(raws.take(i + 1).drop_last() =~= raws.take(i as int));
        assert(raws.take(i + 1).last() == raw@);
        let k = first_index(&raw, '=');
        if k == raw.len() {
            proof {
                lemma_parse_edits_error_sticks(raws, i + 1);
            }
            return Err(EditParseError::MissingEquals);
        }
        let path = sub_chars(&raw, 0, k);
        assert(path@ =~= raw@.take(k as int));
        if trim_chars(&path).len() == 0 {
            proof {
                lemma_parse_edits_error_sticks(raws, i + 1);
            }
            return Err(EditParseError::EmptyPath);
        }
        let contents = sub_chars(&raw, k + 1, raw.len());
        assert(contents@ =~= raw@.skip(k + 1));
        let ghost old_out = out@;
        out.push(
            ControlledEdit {
                relative_path: string_of(&path),
                contents: string_of(&contents),
                reason_code: String::from_str(OPERATOR_CONTROLLED_EDIT_REASON),
            },
        );
        assert(edit_views(out@) =~= edit_views(old_out).push((path@, contents@)));
        i += 1;
    }
    assert(raws.take(raw_edits.len() as int) =~= raws);
    Ok(out)
}

// ---------------------------------------------------------------------------
// Verifier commands
// ---------------------------------------------------------------------------

/// A verifier command with no `<placeholder>` left in it.
pub open spec fn is_concrete_spec(command: Seq<char>) -> bool {
    command.len() > 0 && !has_char(command, '<') && !has_char(command, '>')
}

pub fn is_concrete_verifier_command(command: &str) -> (b: bool)
    ensures
        b == is_concrete_spec(command@),
{
    let c = chars_of(command);
    c.len() > 0 && !has_char_exec(&c, '<') && !has_char_exec(&c, '>')
}

/// The trimmed commands that are non-empty (or concrete, if asked), in order.
pub open spec fn kept_commands(v: Seq<Seq<char>>, concrete_only: bool) -> Seq<Seq<char>>
    decreases v.len(),
{
    if v.len() == 0 {
        seq![]
    } else {
        let prev = kept_commands(v.drop_last(), concrete_only);
        let t = trim(v.last());
        if (if concrete_only { is_concrete_spec(t) } else { t.len() > 0 }) {
            prev.push(t)
        } else {
            prev
        }
    }
}

fn keep_commands(v: &Vec<String>, concrete_only: bool) -> (r: Vec<String>)
    ensures
        string_views(r@) == kept_commands(string_views(v@), concrete_only),
{
    let ghost sv = string_views(v@);
    let mut out: Vec<String> = Vec::new();
    let mut i: usize = 0;
    while i < v.len()
        invariant
            i <= v.len(),
            sv == string_views(v@),
            string_views(out@) == kept_commands(sv.take(i as int), concrete_only),
        decreases v.len() - i,
    {
        assert(sv.take(i + 1).drop_last() =~= sv.take(i as int));
        let t = trim_chars(&chars_of(v[i].as_str()));
        let ts = string_of(&t);
        let keep = if concrete_only {
            is_concrete_verifier_command(ts.as_str())
        } else {
            t.len() > 0
        };
        if keep {
            let ghost old_out = out@;
            out.push(ts);
            assert(string_views(out@) =~= string_views(old_out).push(t@));
        }
        i += 1;
    }
    assert(sv.take(v.len() as int) =~= sv);
    out
}

/// The explicit commands if any remain after trimming, else the concrete
/// persisted suggestions; `None` when neither leaves a command.
pub open spec fn verifier_commands_spec(suggested: Seq<Seq<char>>, explicit: Seq<Seq<char>>) -> Option<
    Seq<Seq<char>>,
> {
    let e = kept_commands(explicit, false);
    let s = kept_commands(suggested, true);
    if e.len() > 0 {
        Some(e)
    } else if s.len() > 0 {
        Some(s)
    } else {
        None
    }
}


/// A command line that holds more than blanks.
pub open spec fn non_blank_command() -> spec_fn(Seq<char>) -> bool {
    |c: Seq<char>| c.len() > 0
}

/// The commands trimmed, in order.
pub open spec fn trimmed_commands(v: Seq<Seq<char>>) -> Seq<Seq<char>> {
    v.map_values(|c: Seq<char>| trim(c))
}

proof fn lemma_kept_explicit_is_filter(v: Seq<Seq<char>>)
    ensures
        kept_commands(v, false) == trimmed_commands(v).filter(non_blank_command()),
        (exists|i: int| 0 <= i < v.len() && #[trigger] trim(v[i]).len() > 0) ==> kept_commands(
            v,
            false,
        ).len() > 0,
    decreases v.len(),
{
    reveal(Seq::filter);
    if v.len() > 0 {
        lemma_kept_explicit_is_filter(v.drop_last());
        assert(trimmed_commands(v).drop_last() =~= trimmed_commands(v.drop_last()));
        assert(trimmed_commands(v).last() == trim(v.last()));
        if exists|i: int| 0 <= i < v.len() && #[trigger] trim(v[i]).len() > 0 {
            let i = choose|i: int| 0 <= i < v.len() && #[trigger] trim(v[i]).len() > 0;
            if i < v.len() - 1 {
                assert(v.drop_last()[i] == v[i]);
            }
        }
    }
}

/// The operator's explicit verifier commands win: as soon as one of them is
/// not blank, the run's verifier commands are exactly the explicit commands,
/// trimmed, with the blank ones left out, whatever was suggested.
pub proof fn lemma_explicit_verifier_commands_win(suggested: Seq<Seq<char>>, explicit: Seq<Seq<char>>)
    requires
        exists|i: int| 0 <= i < explicit.len() && #[trigger] trim(explicit[i]).len() > 0,
    ensures
        verifier_commands_spec(suggested, explicit) == Some(
            trimmed_commands(explicit).filter(non_blank_command()),
        ),
{
    lemma_kept_explicit_is_filter(explicit);
}

proof fn lemma_kept_commands_clean(v: Seq<Seq<char>>, concrete_only: bool)
    ensures
        forall|i: int|
            0 <= i < kept_commands(v, concrete_only).len() ==> {
                let c = #[trigger] kept_commands(v, concrete_only)[i];
                &&& c.len() > 0
                &&& trim(c) == c
                &&& concrete_only ==> is_concrete_spec(c)
            },
    decreases v.len(),
{
    if v.len() > 0 {
        lemma_kept_commands_clean(v.drop_last(), concrete_only);
        crate::text::lemma_trim_idempotent(v.last());
        let prev = kept_commands(v.drop_last(), concrete_only);
        let t = trim(v.last());
        let k = kept_commands(v, concrete_only);
        assert forall|i: int| 0 <= i < k.len() implies {
            let c = #[trigger] k[i];
            &&& c.len() > 0
            &&& trim(c) == c
            &&& concrete_only ==> is_concrete_spec(c)
        } by {
            if i < prev.len() {
                assert(k[i] == prev[i]);
            } else {
                assert(k[i] == t);
            }
        }
    }
}

/// The verifier commands of a run are trimmed and non-empty, and persisted
/// suggestions are used only when they are concrete.
pub proof fn lemma_verifier_commands_clean(suggested: Seq<Seq<char>>, explicit: Seq<Seq<char>>)
    ensures
        verifier_commands_spec(suggested, explicit) matches Some(c) ==> c.len() > 0 && forall|i: int|
            0 <= i < c.len() ==> (#[trigger] c[i]).len() > 0 && trim(c[i]) == c[i],
        kept_commands(explicit, false).len() == 0 ==> (verifier_commands_spec(suggested, explicit) matches Some(c)
            ==> forall|i: int| 0 <= i < c.len() ==> is_concrete_spec(#[trigger] c[i])),
{
    lemma_kept_commands_clean(explicit, false);
    lemma_kept_commands_clean(suggested, true);
}

// ---------------------------------------------------------------------------
// Persisted intake
// ---------------------------------------------------------------------------

/// What the intake step decided about an issue.
#[derive(Debug, Clone, Copy, PartialEq, Eq, Structural)]
pub enum IssueIntakeDecision {
    NeedsAuthority,
    ReadyToRun,
    NeedsClarification,
    SplitRequired,
    BlockedUnsafe,
    MissingCredentials,
    Unknown,
}

/// The parts of a persisted issue intake that an intake run reads.
#[derive(Debug, Clone)]
pub struct IssueIntake {
    pub intake_id: String,
    pub decision: IssueIntakeDecision,
    pub issue_url: String,
    pub issue_title: String,
    pub issue_body: String,
    pub repo_path: String,
    pub base_branch: String,
    pub suggested_verifier_commands: Vec<String>,
}

/// How the pull request is opened.
#[derive(Debug, Clone, Copy, PartialEq, Eq, Structural)]
pub enum PrMode {
    Disabled,
    PrReady,
    Draft,
}

/// How an auto-merge merges.
#[derive(Debug, Clone, Copy, PartialEq, Eq, Structural)]
pub enum MergeMethod {
    Merge,
    Squash,
    Rebase,
}

/// Why an intake run was refused.
#[derive(Debug, Clone, Copy, PartialEq, Eq, Structural)]
pub enum IntakeRunError {
    Edit(EditParseError),
    OpenrouterWithCommand,
    MissingAuthority,
    NoConcreteVerifier,
    MissingIssueBody,
    MissingIssueUrl,
    MissingIssueTitle,
    MissingRepoPath,
    Refused(IssueIntakeDecision),
}

pub open spec fn refusal_name(d: IssueIntakeDecision) -> Seq<char> {
    match d {
        IssueIntakeDecision::NeedsClarification => "needs_clarification"@,
        IssueIntakeDecision::SplitRequired => "split_required"@,
        IssueIntakeDecision::BlockedUnsafe => "blocked_unsafe"@,
        IssueIntakeDecision::MissingCredentials => "missing_credentials"@,
        _ => "unknown legacy"@,
    }
}

pub open spec fn intake_run_error_message(e: IntakeRunError) -> Seq<char> {
    match e {
        IntakeRunError::Edit(x) => edit_error_message(x),
        IntakeRunError::OpenrouterWithCommand =>
            "--provider-repair-openrouter cannot be combined with --provider-repair-command"@,
        IntakeRunError::MissingAuthority => "intake-run requires --edit or provider repair authority"@,
        IntakeRunError::NoConcreteVerifier =>
            "intake-run requires a concrete --verifier-command or persisted verifier command"@,
        IntakeRunError::MissingIssueBody =>
            "intake-run requires persisted issue_body; rerun intake first"@,
        IntakeRunError::MissingIssueUrl => "intake-run requires persisted issue_url"@,
        IntakeRunError::MissingIssueTitle => "intake-run requires persisted issue_title"@,
        IntakeRunError::MissingRepoPath => "intake-run requires persisted repo_path"@,
        IntakeRunError::Refused(d) => "intake-run refuses "@ + refusal_name(d) + " intake"@,
    }
}

impl IntakeRunError {
    pub fn to_string(&self) -> (s: String)
        ensures
            s@ == intake_run_error_message(*self),
    {
        match self {
            IntakeRunError::Edit(x) => x.to_string(),
            IntakeRunError::OpenrouterWithCommand => String::from_str(
                "--provider-repair-openrouter cannot be combined with --provider-repair-command",
            ),
            IntakeRunError::MissingAuthority => String::from_str(
                "intake-run requires --edit or provider repair authority",
            ),
            IntakeRunError::NoConcreteVerifier => String::from_str(
                "intake-run requires a concrete --verifier-command or persisted verifier command",
            ),
            IntakeRunError::MissingIssueBody => String::from_str(
                "intake-run requires persisted issue_body; rerun intake first",
            ),
            IntakeRunError::MissingIssueUrl => String::from_str(
                "intake-run requires persisted issue_url",
            ),
            IntakeRunError::MissingIssueTitle => String::from_str(
                "intake-run requires persisted issue_title",
            ),
            IntakeRunError::MissingRepoPath => String::from_str(
                "intake-run requires persisted repo_path",
            ),
            IntakeRunError::Refused(d) => {
                let m = match d {
                    IssueIntakeDecision::NeedsClarification => "intake-run refuses needs_clarification intake",
                    IssueIntakeDecision::SplitRequired => "intake-run refuses split_required intake",
                    IssueIntakeDecision::BlockedUnsafe => "intake-run refuses blocked_unsafe intake",
                    IssueIntakeDecision::MissingCredentials => "intake-run refuses missing_credentials intake",
                    _ => "intake-run refuses unknown legacy intake",
                };
                proof {
                    reveal_strlit("intake-run refuses ");
                    reveal_strlit(" intake");
                    reveal_strlit("needs_clarification");
                    reveal_strlit("split_required");
                    reveal_strlit("blocked_unsafe");
                    reveal_strlit("missing_credentials");
                    reveal_strlit("unknown legacy");
                    reveal_strlit("intake-run refuses needs_clarification intake");
                    reveal_strlit("intake-run refuses split_required intake");
                    reveal_strlit("intake-run refuses blocked_unsafe intake");
                    reveal_strlit("intake-run refuses missing_credentials intake");
                    reveal_strlit("intake-run refuses unknown legacy intake");
                    assert(m@ =~= intake_run_error_message(*self));
                }
                String::from_str(m)
            },
        }
    }
}

/// Decisions an intake run goes ahead on.
pub open spec fn intake_runnable(d: IssueIntakeDecision) -> bool {
    d == IssueIntakeDecision::NeedsAuthority || d == IssueIntakeDecision::ReadyToRun
}

/// Refuses intakes that need clarification, splitting, are unsafe, lack
/// credentials, or are of an unknown legacy kind.
pub fn ensure_intake_run_decision(intake: &IssueIntake) -> (r: Result<(), IntakeRunError>)
    ensures
        r is Ok <==> intake_runnable(intake.decision),
        r matches Err(e) ==> e == IntakeRunError::Refused(intake.decision),
{
    match intake.decision {
        IssueIntakeDecision::NeedsAuthority | IssueIntakeDecision::ReadyToRun => Ok(()),
        d => Err(IntakeRunError::Refused(d)),
    }
}

/// The verifier commands of an intake run.
pub fn intake_run_verifier_commands(intake: &IssueIntake, explicit: &Vec<String>) -> (r: Result<
    Vec<String>,
    IntakeRunError,
>)
    ensures
        match verifier_commands_spec(
            string_views(intake.suggested_verifier_commands@),
            string_views(explicit@),
        ) {
            Some(c) => r matches Ok(v) && string_views(v@) == c,
            None => r == Err::<Vec<String>, IntakeRunError>(IntakeRunError::NoConcreteVerifier),
        },
{
    let commands = keep_commands(explicit, false);
    if commands.len() > 0 {
        return Ok(commands);
    }
    let suggested = keep_commands(&intake.suggested_verifier_commands, true);
    if suggested.len() > 0 {
        return Ok(suggested);
    }
    Err(IntakeRunError::NoConcreteVerifier)
}


// ---------------------------------------------------------------------------
// Provider repair policy
// ---------------------------------------------------------------------------

/// The `--provider-repair-*` arguments.
#[derive(Debug, Clone)]
pub struct ProviderRepairArgs {
    pub provider_repair_command: Option<String>,
    pub provider_repair_args: Vec<String>,
    pub provider_repair_attempts: u32,
    pub provider_repair_provider: Option<String>,
    pub provider_repair_model: Option<String>,
    pub provider_repair_openrouter: bool,
    pub provider_repair_env_file: Option<String>,
    pub provider_repair_api_base: Option<String>,
    pub provider_repair_timeout_ms: u64,
    pub provider_repair_max_tokens: u32,
    pub provider_repair_max_retries: usize,
}

/// Who repairs a failing verifier, and how often.
#[derive(Debug, Clone)]
pub struct ProviderRepairPolicy {
    pub enabled: bool,
    pub max_attempts: u32,
    pub command: Option<String>,
    pub args: Vec<String>,
    pub provider: Option<String>,
    pub model: Option<String>,
}

pub open spec fn policy_view(p: ProviderRepairPolicy) -> (
    bool,
    u32,
    Option<Seq<char>>,
    Seq<Seq<char>>,
    Option<Seq<char>>,
    Option<Seq<char>>,
) {
    (
        p.enabled,
        p.max_attempts,
        opt_string_view(p.command),
        string_views(p.args@),
        opt_string_view(p.provider),
        opt_string_view(p.model),
    )
}

/// The arguments of the OpenRouter repair adapter.
pub open spec fn adapter_args_spec(
    model: Seq<char>,
    timeout_ms: u64,
    max_tokens: u32,
    max_retries: usize,
    env_file: Option<Seq<char>>,
    api_base: Option<Seq<char>>,
) -> Seq<Seq<char>> {
    let t: nat = if timeout_ms == 0 { 1 } else { timeout_ms as nat };
    let k: nat = if max_tokens == 0 { 1 } else { max_tokens as nat };
    let base = seq![
        "openrouter-repair-adapter"@,
        "--model"@,
        model,
        "--request-timeout-ms"@,
        decimal(t),
        "--max-tokens"@,
        decimal(k),
        "--max-retries"@,
        decimal(max_retries as nat),
    ];
    let with_env = match env_file {
        Some(f) => base + seq!["--env-file"@, f],
        None => base,
    };
    match (match api_base {
        Some(a) => trimmed_non_empty_spec(a),
        None => None,
    }) {
        Some(a) => with_env + seq!["--api-base"@, a],
        None => with_env,
    }
}

/// The repair policy the arguments ask for. With `--provider-repair-openrouter`
/// the job re-runs its own executable as the OpenRouter adapter, three
/// attempts unless a count is given; otherwise the given command is used,
/// enabled when there is one and at least one attempt.
pub open spec fn provider_repair_policy_spec(
    args: ProviderRepairArgs,
    nearest_dotenv: Option<Seq<char>>,
    snap: EnvSnapshot,
    current_exe: Seq<char>,
) -> Result<(bool, u32, Option<Seq<char>>, Seq<Seq<char>>, Option<Seq<char>>, Option<Seq<char>>), IntakeRunError> {
    if args.provider_repair_openrouter && args.provider_repair_command is Some {
        Err(IntakeRunError::OpenrouterWithCommand)
    } else if args.provider_repair_openrouter {
        let env_file = match args.provider_repair_env_file {
            Some(c) => Some(c@),
            None => nearest_dotenv,
        };
        let model = resolve_setting_spec(
            opt_string_view(args.provider_repair_model),
            snap,
            model_env_names_spec(),
            DEFAULT_OPENROUTER_MODEL@,
        );
        Ok(
            (
                true,
                if args.provider_repair_attempts == 0 { 3u32 } else { args.provider_repair_attempts },
                Some(current_exe),
                adapter_args_spec(
                    model,
                    args.provider_repair_timeout_ms,
                    args.provider_repair_max_tokens,
                    args.provider_repair_max_retries,
                    env_file,
                    opt_string_view(args.provider_repair_api_base),
                ),
                Some("openrouter"@),
                Some(model),
            ),
        )
    } else {
        Ok(
            (
                args.provider_repair_command is Some && args.provider_repair_attempts > 0,
                args.provider_repair_attempts,
                opt_string_view(args.provider_repair_command),
                string_views(args.provider_repair_args@),
                opt_string_view(args.provider_repair_provider),
                opt_string_view(args.provider_repair_model),
            ),
        )
    }
}

fn clone_opt(v: &Option<String>) -> (r: Option<String>)
    ensures
        r == *v,
{
    match v {
        Some(s) => Some(s.clone()),
        None => None,
    }
}

fn clone_strings(v: &Vec<String>) -> (r: Vec<String>)
    ensures
        r@ == v@,
{
    let mut out: Vec<String> = Vec::new();
    let mut i: usize = 0;
    while i < v.len()
        invariant
            i <= v.len(),
            out@ == v@.take(i as int),
        decreases v.len() - i,
    {
        out.push(v[i].clone());
        assert(out@ =~= v@.take(i + 1));
        i += 1;
    }
    assert(v@.take(v.len() as int) =~= v@);
    out
}

fn decimal_string(n: u64) -> (s: String)
    ensures
        s@ == decimal(n as nat),
{
    string_of(&decimal_chars(n))
}

/// The repair policy for an intake run. `nearest_dotenv` is the nearest
/// `.env` file the caller found, and `snap` holds the process environment
/// and the contents of the env file in use; `current_exe` is this executable.
pub fn provider_repair_policy(
    args: &ProviderRepairArgs,
    nearest_dotenv: Option<String>,
    snap: &EnvSnapshot,
    current_exe: String,
) -> (r: Result<ProviderRepairPolicy, IntakeRunError>)
    ensures
        match (r, provider_repair_policy_spec(*args, opt_string_view(nearest_dotenv), *snap, current_exe@)) {
            (Ok(p), Ok(v)) => policy_view(p) == v,
            (Err(e), Err(f)) => e == f,
            _ => false,
        },
{
    if args.provider_repair_openrouter && args.provider_repair_command.is_some() {
        return Err(IntakeRunError::OpenrouterWithCommand);
    }
    if args.provider_repair_openrouter {
        let env_file = resolve_openrouter_env_file(
            clone_opt(&args.provider_repair_env_file),
            nearest_dotenv,
        );
        let max_attempts: u32 = if args.provider_repair_attempts == 0 {
            3
        } else {
            args.provider_repair_attempts
        };
        let configured: Option<&str> = match &args.provider_repair_model {
            Some(m) => Some(m.as_str()),
            None => None,
        };
        let model = resolve_openrouter_repair_model(configured, snap);
        let timeout: u64 = if args.provider_repair_timeout_ms == 0 {
            1
        } else {
            args.provider_repair_timeout_ms
        };
        let tokens: u32 = if args.provider_repair_max_tokens == 0 {
            1
        } else {
            args.provider_repair_max_tokens
        };
        let mut a: Vec<String> = Vec::new();
        a.push(String::from_str("openrouter-repair-adapter"));
        a.push(String::from_str("--model"));
        a.push(model.clone());
        a.push(String::from_str("--request-timeout-ms"));
        a.push(decimal_string(timeout));
        a.push(String::from_str("--max-tokens"));
        a.push(decimal_string(tokens as u64));
        a.push(String::from_str("--max-retries"));
        a.push(decimal_string(args.provider_repair_max_retries as u64));
        let ghost base = string_views(a@);
        match &env_file {
            Some(f) => {
                a.push(String::from_str("--env-file"));
                a.push(f.clone());
            },
            None => {},
        }
        let ghost with_env = string_views(a@);
        let api_base = match &args.provider_repair_api_base {
            Some(b) => trimmed_non_empty(b.as_str()),
            None => None,
        };
        let ghost api_view = opt_string_view(api_base);
        match api_base {
            Some(b) => {
                a.push(String::from_str("--api-base"));
                a.push(b);
            },
            None => {},
        }
        proof {
            let t: nat = if args.provider_repair_timeout_ms == 0 { 1 } else { args.provider_repair_timeout_ms as nat };
            let k: nat = if args.provider_repair_max_tokens == 0 { 1 } else { args.provider_repair_max_tokens as nat };
            assert(base =~= seq![
                "openrouter-repair-adapter"@,
                "--model"@,
                model@,
                "--request-timeout-ms"@,
                decimal(t),
                "--max-tokens"@,
                decimal(k),
                "--max-retries"@,
                decimal(args.provider_repair_max_retries as nat),
            ]);
            match env_file {
                Some(f) => assert(with_env =~= base + seq!["--env-file"@, f@]),
                None => assert(with_env =~= base),
            }
            match api_view {
                Some(b) => assert(string_views(a@) =~= with_env + seq!["--api-base"@, b]),
                None => assert(string_views(a@) =~= with_env),
            }
        }
        return Ok(
            ProviderRepairPolicy {
                enabled: true,
                max_attempts,
                command: Some(current_exe),
                args: a,
                provider: Some(String::from_str("openrouter")),
                model: Some(model),
            },
        );
    }
    Ok(
        ProviderRepairPolicy {
            enabled: args.provider_repair_command.is_some() && args.provider_repair_attempts > 0,
            max_attempts: args.provider_repair_attempts,
            command: clone_opt(&args.provider_repair_command),
            args: clone_strings(&args.provider_repair_args),
            provider: clone_opt(&args.provider_repair_provider),
            model: clone_opt(&args.provider_repair_model),
        },
    )
}


// ---------------------------------------------------------------------------
// Intake run request
// ---------------------------------------------------------------------------

/// The arguments of `intake-run`.
#[derive(Debug, Clone)]
pub struct IntakeRunArgs {
    pub provider_repair: ProviderRepairArgs,
    pub intake_id: String,
    pub mission_id: Option<String>,
    pub session_key: String,
    pub goal: Option<String>,
    pub branch_prefix: String,
    pub verifier_commands: Vec<String>,
    pub allowed_roots: Vec<String>,
    pub edits: Vec<String>,
    pub commit_message: Option<String>,
    pub pr_mode: PrMode,
    pub timeout_ms: Option<u64>,
    pub allow_auto_merge: bool,
    pub merge_method: MergeMethod,
    pub delete_branch: bool,
    pub gh_binary: Option<String>,
    pub started_unix_ms: Option<u64>,
}

/// What an intake run hands to the issue-to-merge runtime.
#[derive(Debug, Clone)]
pub struct IssueToMergeRequest {
    pub intake_id: String,
    pub mission_id: String,
    pub session_key: String,
    pub repo_path: String,
    pub issue_url: String,
    pub issue_title: String,
    pub issue_body: String,
    pub goal: String,
    pub base_branch: String,
    pub branch_prefix: String,
    pub verifier_commands: Vec<String>,
    pub pr_mode: PrMode,
    pub allowed_roots: Vec<String>,
    pub controlled_edits: Vec<ControlledEdit>,
    pub provider_repair: ProviderRepairPolicy,
    pub commit_message: String,
    pub timeout_ms: Option<u64>,
    pub allow_auto_merge: bool,
    pub merge_method: MergeMethod,
    pub delete_branch: bool,
    pub github_env: Vec<(String, String)>,
    pub gh_binary: Option<String>,
    pub started_unix_ms: u64,
}

/// The edits and the repair policy of an intake run, in the order in which
/// the arguments are checked.
pub fn prepare_intake_run(
    args: &IntakeRunArgs,
    nearest_dotenv: Option<String>,
    snap: &EnvSnapshot,
    current_exe: String,
) -> (r: Result<(Vec<ControlledEdit>, ProviderRepairPolicy), IntakeRunError>)
    ensures
        match parse_edits_spec(string_views(args.edits@)) {
            Err(e) => r == Err::<(Vec<ControlledEdit>, ProviderRepairPolicy), IntakeRunError>(
                IntakeRunError::Edit(e),
            ),
            Ok(w) => match provider_repair_policy_spec(
                args.provider_repair,
                opt_string_view(nearest_dotenv),
                *snap,
                current_exe@,
            ) {
                Err(f) => r == Err::<(Vec<ControlledEdit>, ProviderRepairPolicy), IntakeRunError>(f),
                Ok(v) => r matches Ok((edits, policy)) && edit_views(edits@) == w && operator_edits(
                    edits@,
                ) && policy_view(policy) == v,
            },
        },
{
    let edits = match parse_edits(&args.edits) {
        Ok(e) => e,
        Err(e) => return Err(IntakeRunError::Edit(e)),
    };
    let policy = match provider_repair_policy(&args.provider_repair, nearest_dotenv, snap, current_exe) {
        Ok(p) => p,
        Err(e) => return Err(e),
    };
    Ok((edits, policy))
}

/// The first reason to refuse an intake run, in the order the checks run.
pub open spec fn intake_run_failure(
    intake: IssueIntake,
    args: IntakeRunArgs,
    edit_count: nat,
    provider_repair_configured: bool,
) -> Option<IntakeRunError> {
    if edit_count == 0 && !provider_repair_configured {
        Some(IntakeRunError::MissingAuthority)
    } else if verifier_commands_spec(
        string_views(intake.suggested_verifier_commands@),
        string_views(args.verifier_commands@),
    ) is None {
        Some(IntakeRunError::NoConcreteVerifier)
    } else if trim(intake.issue_body@).len() == 0 {
        Some(IntakeRunError::MissingIssueBody)
    } else if trim(intake.issue_url@).len() == 0 {
        Some(IntakeRunError::MissingIssueUrl)
    } else if trim(intake.issue_title@).len() == 0 {
        Some(IntakeRunError::MissingIssueTitle)
    } else if intake.repo_path@.len() == 0 {
        Some(IntakeRunError::MissingRepoPath)
    } else if !intake_runnable(intake.decision) {
        Some(IntakeRunError::Refused(intake.decision))
    } else {
        None
    }
}

fn or_else_string(v: Option<String>, fallback: Vec<char>) -> (r: String)
    ensures
        r@ == match v {
            Some(s) => s@,
            None => fallback@,
        },
{
    match v {
        Some(s) => s,
        None => string_of(&fallback),
    }
}

/// The issue-to-merge request of an intake run. `controlled_edits` and
/// `provider_repair` come from `prepare_intake_run`;
/// `provider_repair_configured` is whether the runtime counts that policy as
/// configured; `github_env` holds the GitHub tokens of the environment and
/// `now_unix_ms` the time used when no start time was given.
pub fn build_intake_run_request(
    intake: IssueIntake,
    args: IntakeRunArgs,
    controlled_edits: Vec<ControlledEdit>,
    provider_repair: ProviderRepairPolicy,
    provider_repair_configured: bool,
    github_env: Vec<(String, String)>,
    now_unix_ms: u64,
) -> (r: Result<IssueToMergeRequest, IntakeRunError>)
    ensures
        r is Err <==> intake_run_failure(
            intake,
            args,
            controlled_edits.len() as nat,
            provider_repair_configured,
        ) is Some,
        r matches Err(e) ==> intake_run_failure(
            intake,
            args,
            controlled_edits.len() as nat,
            provider_repair_configured,
        ) == Some(e),
        r matches Ok(q) ==> {
            let title = trim(intake.issue_title@);
            let body = trim(intake.issue_body@);
            &&& q.intake_id == intake.intake_id
            &&& q.mission_id@ == match args.mission_id {
                Some(m) => m@,
                None => intake.intake_id@ + "-mission"@,
            }
            &&& q.session_key == args.session_key
            &&& q.repo_path == intake.repo_path
            &&& q.issue_url@ == trim(intake.issue_url@)
            &&& q.issue_title@ == title
            &&& q.issue_body@ == body
            &&& q.goal@ == match args.goal {
                Some(g) => g@,
                None => title + "\n\n"@ + body,
            }
            &&& q.base_branch == intake.base_branch
            &&& q.branch_prefix == args.branch_prefix
            &&& Some(string_views(q.verifier_commands@)) == verifier_commands_spec(
                string_views(intake.suggested_verifier_commands@),
                string_views(args.verifier_commands@),
            )
            &&& q.pr_mode == args.pr_mode
            &&& q.allowed_roots@ == if args.allowed_roots@.len() == 0 {
                seq![intake.repo_path]
            } else {
                args.allowed_roots@
            }
            &&& q.controlled_edits == controlled_edits
            &&& q.provider_repair == provider_repair
            &&& q.commit_message@ == match args.commit_message {
                Some(c) => c@,
                None => "Resolve "@ + title,
            }
            &&& q.timeout_ms == args.timeout_ms
            &&& q.allow_auto_merge == args.allow_auto_merge
            &&& q.merge_method == args.merge_method
            &&& q.delete_branch == args.delete_branch
            &&& q.github_env == github_env
            &&& q.gh_binary == args.gh_binary
            &&& q.started_unix_ms == match args.started_unix_ms {
                Some(t) => t,
                None => now_unix_ms,
            }
        },
{
    if controlled_edits.len() == 0 && !provider_repair_configured {
        return Err(IntakeRunError::MissingAuthority);
    }
    let verifier_commands = match intake_run_verifier_commands(&intake, &args.verifier_commands) {
        Ok(v) => v,
        Err(e) => return Err(e),
    };
    let body = trim_chars(&chars_of(intake.issue_body.as_str()));
    if body.len() == 0 {
        return Err(IntakeRunError::MissingIssueBody);
    }
    let url = trim_chars(&chars_of(intake.issue_url.as_str()));
    if url.len() == 0 {
        return Err(IntakeRunError::MissingIssueUrl);
    }
    let title = trim_chars(&chars_of(intake.issue_title.as_str()));
    if title.len() == 0 {
        return Err(IntakeRunError::MissingIssueTitle);
    }
    if intake.repo_path.as_str().is_empty() {
        return Err(IntakeRunError::MissingRepoPath);
    }
    match ensure_intake_run_decision(&intake) {
        Ok(()) => {},
        Err(e) => return Err(e),
    }
    let allowed_roots = if args.allowed_roots.len() == 0 {
        let mut v: Vec<String> = Vec::new();
        v.push(intake.repo_path.clone());
        assert(v@ =~= seq![intake.repo_path]);
        v
    } else {
        args.allowed_roots
    };
    let mut default_goal = title.clone();
    crate::text::append_str(&mut default_goal, "\n\n");
    crate::text::append_chars(&mut default_goal, &body);
    let goal = or_else_string(args.goal, default_goal);
    let mut default_commit = chars_of("Resolve ");
    crate::text::append_chars(&mut default_commit, &title);
    let commit_message = or_else_string(args.commit_message, default_commit);
    let mut default_mission = chars_of(intake.intake_id.as_str());
    crate::text::append_str(&mut default_mission, "-mission");
    let mission_id = or_else_string(args.mission_id, default_mission);
    let started_unix_ms = match args.started_unix_ms {
        Some(t) => t,
        None => now_unix_ms,
    };
    Ok(
        IssueToMergeRequest {
            intake_id: intake.intake_id,
            mission_id,
            session_key: args.session_key,
            repo_path: intake.repo_path,
            issue_url: string_of(&url),
            issue_title: string_of(&title),
            issue_body: string_of(&body),
            goal,
            base_branch: intake.base_branch,
            branch_prefix: args.branch_prefix,
            verifier_commands,
            pr_mode: args.pr_mode,
            allowed_roots,
            controlled_edits,
            provider_repair,
            commit_message,
            timeout_ms: args.timeout_ms,
            allow_auto_merge: args.allow_auto_merge,
            merge_method: args.merge_method,
            delete_branch: args.delete_branch,
            github_env,
            gh_binary: args.gh_binary,
            started_unix_ms,
        },
    )
}

} // verus!
