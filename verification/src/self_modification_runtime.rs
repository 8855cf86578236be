//! Self-modification runtime: configuration, target classification, the
//! auto-apply policy, proposal identifiers and the containment rules for the
//! worktrees that hold a proposal.
//!
//! # Security model
//!
//! Every worktree lives at `<workspace_root>/.tau/self-mod-worktrees/<proposal_id>`.
//! A `proposal_id` is accepted only when [`validate_proposal_id`] accepts it, so
//! it can never contain a separator, a traversal component or a control
//! character. [`worktree_within_root`] is the containment test that guards the
//! removal of a worktree: only strict descendants of the worktrees root qualify.
use vstd::prelude::*;

use crate::text::{append_chars, append_str, before_first, debug_char, push_debug_char, chars_eq, chars_eq_str, chars_of, contains, contains_str, decimal, decimal_chars, ends_with, ends_with_str, index_of, is_ascii_alnum, is_ascii_alnum_char, join, lemma_decimal_nonempty, lemma_index_of, lemma_take_push, occurs_at, starts_with, starts_with_str, string_of, sub_chars, views_of, split_on, split_state, split_on_chars};
use crate::mission_self_improvement::normal_segments;

verus! {

/// Relative subtree (under the workspace root) that contains every
/// self-modification worktree.
pub const SELF_MOD_WORKTREES_SUBDIR: &'static str = ".tau/self-mod-worktrees";

/// Configuration for the self-modification runtime.
#[derive(Debug, Clone)]
pub struct SelfModificationConfig {
    pub enabled: bool,
    pub auto_apply_skills: bool,
    pub auto_apply_config: bool,
    pub auto_apply_source: bool,
    pub workspace_root: String,
}

/// The default configuration: enabled, skills (and prompts) auto-applied,
/// config and source changes not, workspace root `.`.
pub open spec fn is_default_config(c: SelfModificationConfig) -> bool {
    &&& c.enabled
    &&& c.auto_apply_skills
    &&& !c.auto_apply_config
    &&& !c.auto_apply_source
    &&& c.workspace_root@ == "."@
}

impl Default for SelfModificationConfig {
    fn default() -> (c: Self)
        ensures
            is_default_config(c),
    {
        SelfModificationConfig {
            enabled: true,
            auto_apply_skills: true,
            auto_apply_config: false,
            auto_apply_source: false,
            workspace_root: String::from_str("."),
        }
    }
}

/// Result of a self-modification attempt.
#[derive(Debug, Clone)]
pub struct SelfModificationResult {
    pub proposal_id: String,
    pub applied: bool,
    pub safety_evaluation: SelfModificationSafetyResult,
    pub test_passed: Option<bool>,
    pub rollback_available: bool,
    pub worktree_path: Option<String>,
    pub pr_url: Option<String>,
}

/// Safety evaluation outcome for a self-modification proposal.
#[derive(Debug, Clone)]
pub struct SelfModificationSafetyResult {
    pub allowed: bool,
    pub blocked_by: Vec<String>,
    pub warnings: Vec<String>,
}

/// Categorises a target path for self-modification policy decisions.
#[derive(Debug, Clone, Copy, PartialEq, Eq, Structural)]
pub enum ModificationTarget {
    /// `skills/` directory entries.
    Skill,
    /// `.tau.toml` or other config files.
    Config,
    /// Prompt templates.
    Prompt,
    /// Rust source files under `crates/*/src/`.
    Source,
    /// Anything that does not match the categories above.
    Other,
}

// ---------------------------------------------------------------------------
// Path segments
// ---------------------------------------------------------------------------

pub open spec fn is_path_sep(c: char) -> bool {
    c == '/' || c == '\\'
}

/// A segment survives normalisation unless it is empty or `.`.
pub open spec fn keeps_segment(seg: Seq<char>) -> bool {
    seg.len() > 0 && seg != seq!['.']
}

pub open spec fn segments_state(s: Seq<char>) -> (Seq<Seq<char>>, Seq<char>)
    decreases s.len(),
{
    if s.len() == 0 {
        (seq![], seq![])
    } else {
        let (done, cur) = segments_state(s.drop_last());
        if is_path_sep(s.last()) {
            (if keeps_segment(cur) { done.push(cur) } else { done }, seq![])
        } else {
            (done, cur.push(s.last()))
        }
    }
}

/// The segments of a path: `\` is read as `/`, and empty and `.` segments are dropped.
pub open spec fn path_segments(s: Seq<char>) -> Seq<Seq<char>> {
    let (done, cur) = segments_state(s);
    if keeps_segment(cur) {
        done.push(cur)
    } else {
        done
    }
}

pub open spec fn last_segment(segs: Seq<Seq<char>>) -> Seq<char> {
    if segs.len() > 0 {
        segs.last()
    } else {
        seq![]
    }
}

/// The classification rules, in order.
pub open spec fn classify_spec(path: Seq<char>) -> ModificationTarget {
    let segs = path_segments(path);
    let last = last_segment(segs);
    let stem = before_first(last, '.');
    if segs.contains("skills"@) {
        ModificationTarget::Skill
    } else if last == ".tau.toml"@ || (ends_with(last, ".toml"@) && segs.contains("config"@)) {
        ModificationTarget::Config
    } else if segs.contains("prompts"@) || segs.contains("templates"@) {
        ModificationTarget::Prompt
    } else if starts_with(stem, "prompt"@) || starts_with(stem, "template"@) {
        ModificationTarget::Prompt
    } else if ends_with(last, ".rs"@) && segs.contains("crates"@) {
        ModificationTarget::Source
    } else {
        ModificationTarget::Other
    }
}

/// `str::replace('\\', "/")`.
pub open spec fn forward_slashes(s: Seq<char>) -> Seq<char> {
    s.map_values(|c: char| if c == '\\' { '/' } else { c })
}

proof fn lemma_segments_state_forward(s: Seq<char>)
    ensures
        segments_state(forward_slashes(s)) == segments_state(s),
    decreases s.len(),
{
    if s.len() > 0 {
        lemma_segments_state_forward(s.drop_last());
        assert(forward_slashes(s).drop_last() =~= forward_slashes(s.drop_last()));
        assert(forward_slashes(s).last() == (if s.last() == '\\' { '/' } else { s.last() }));
    }
}

proof fn lemma_segments_state_after_reset(pre: Seq<char>, t: Seq<char>)
    requires
        segments_state(pre) == (Seq::<Seq<char>>::empty(), Seq::<char>::empty()),
    ensures
        segments_state(pre + t) == segments_state(t),
    decreases t.len(),
{
    if t.len() == 0 {
        assert(pre + t =~= pre);
    } else {
        lemma_segments_state_after_reset(pre, t.drop_last());
        assert((pre + t).drop_last() =~= pre + t.drop_last());
        assert((pre + t).last() == t.last());
    }
}

/// Classification reads `\` as `/` and ignores a leading `./`: a Windows-style
/// path and a `./`-prefixed path classify as the plain path does.
pub proof fn lemma_classification_normalises_separators(p: Seq<char>)
    ensures
        classify_spec(forward_slashes(p)) == classify_spec(p),
        classify_spec("./"@ + p) == classify_spec(p),
{
    lemma_segments_state_forward(p);
    reveal_strlit("./");
    let pre = "./"@;
    assert(pre.drop_last() =~= seq!['.']);
    assert(seq!['.'].drop_last() =~= Seq::<char>::empty());
    assert(segments_state(Seq::<char>::empty()) == (Seq::<Seq<char>>::empty(), Seq::<char>::empty()));
    assert(Seq::<char>::empty().push('.') =~= seq!['.']);
    assert(seq!['.'].last() == '.');
    assert(segments_state(seq!['.']) == (Seq::<Seq<char>>::empty(), seq!['.']));
    assert(pre.last() == '/');
    assert(!keeps_segment(seq!['.']));
    assert(segments_state(pre) == (Seq::<Seq<char>>::empty(), Seq::<char>::empty()));
    lemma_segments_state_after_reset(pre, p);
}

/// A `.tau.toml` file, or a `.toml` file under a `config` segment.
pub open spec fn is_config_file(segs: Seq<Seq<char>>) -> bool {
    last_segment(segs) == ".tau.toml"@ || (ends_with(last_segment(segs), ".toml"@) && segs.contains(
        "config"@,
    ))
}

/// What the classification means for each kind of path, whatever else the
/// path holds: a `skills` segment makes it a skill; otherwise a config file is
/// config; otherwise a `prompts` or `templates` segment makes it a prompt; a
/// path is `Other` only when it has none of the marker segments, its file
/// stem names no prompt or template, and it is no Rust file under `crates`.
/// A file whose stem starts with `prompt` or `template` is a prompt (unless a
/// skill or config file), and a source file is a Rust file under `crates`.
pub proof fn lemma_classification_by_segment(path: Seq<char>)
    ensures
        path_segments(path).contains("skills"@) ==> classify_spec(path) == ModificationTarget::Skill,
        !path_segments(path).contains("skills"@) && is_config_file(path_segments(path))
            ==> classify_spec(path) == ModificationTarget::Config,
        !path_segments(path).contains("skills"@) && !is_config_file(path_segments(path)) && (
        path_segments(path).contains("prompts"@) || path_segments(path).contains("templates"@))
            ==> classify_spec(path) == ModificationTarget::Prompt,
        !path_segments(path).contains("skills"@) && !is_config_file(path_segments(path)) && (
        starts_with(before_first(last_segment(path_segments(path)), '.'), "prompt"@) || starts_with(
            before_first(last_segment(path_segments(path)), '.'),
            "template"@,
        )) ==> classify_spec(path) == ModificationTarget::Prompt,
        classify_spec(path) == ModificationTarget::Source ==> ends_with(
            last_segment(path_segments(path)),
            ".rs"@,
        ) && path_segments(path).contains("crates"@) && !path_segments(path).contains("skills"@)
            && !path_segments(path).contains("prompts"@) && !path_segments(path).contains(
            "templates"@,
        ),
        classify_spec(path) == ModificationTarget::Other ==> {
            &&& !path_segments(path).contains("skills"@)
            &&& !path_segments(path).contains("prompts"@)
            &&& !path_segments(path).contains("templates"@)
            &&& !is_config_file(path_segments(path))
            &&& !starts_with(before_first(last_segment(path_segments(path)), '.'), "prompt"@)
            &&& !starts_with(before_first(last_segment(path_segments(path)), '.'), "template"@)
            &&& !(ends_with(last_segment(path_segments(path)), ".rs"@) && path_segments(
                path,
            ).contains("crates"@))
        },
{
}

fn keeps_segment_exec(cur: &[char]) -> (b: bool)
    ensures
        b == keeps_segment(cur@),
{
    if cur.len() == 0 {
        return false;
    }
    if cur.len() == 1 && cur[0] == '.' {
        assert(cur@ =~= seq!['.']);
        return false;
    }
    if cur.len() == 1 {
        assert(cur@ != seq!['.']) by {
            assert(cur@[0] != seq!['.'][0]);
        }
    }
    true
}

/// The normalised segments of a path.
pub fn path_segments_exec(s: &[char]) -> (r: Vec<Vec<char>>)
    ensures
        views_of(r@) == path_segments(s@),
{
    let mut done: Vec<Vec<char>> = Vec::new();
    let mut cur: Vec<char> = Vec::new();
    let mut i: usize = 0;
    while i < s.len()
        invariant
            i <= s.len(),
            (views_of(done@), cur@) == segments_state(s@.take(i as int)),
        decreases s.len() - i,
    {
        proof {
            lemma_take_push(s@, i as int);
        }
        let c = s[i];
        if c == '/' || c == '\\' {
            if keeps_segment_exec(&cur) {
                let ghost old_done = done@;
                done.push(cur);
                assert(views_of(done@) =~= views_of(old_done).push(views_of(done@).last()));
            }
            cur = Vec::new();
        } else {
            cur.push(c);
        }
        i += 1;
    }
    assert(s@.take(s.len() as int) =~= s@);
    if keeps_segment_exec(&cur) {
        let ghost old_done = done@;
        done.push(cur);
        assert(views_of(done@) =~= views_of(old_done).push(views_of(done@).last()));
    }
    done
}

/// Whether one of the segments is exactly `name`.
pub fn has_segment(segs: &Vec<Vec<char>>, name: &str) -> (r: bool)
    ensures
        r == views_of(segs@).contains(name@),
{
    let n = chars_of(name);
    let mut i: usize = 0;
    while i < segs.len()
        invariant
            i <= segs.len(),
            n@ == name@,
            forall|j: int| 0 <= j < i ==> segs@[j]@ != name@,
        decreases segs.len() - i,
    {
        if chars_eq(&segs[i], &n) {
            assert(views_of(segs@)[i as int] == name@);
            return true;
        }
        i += 1;
    }
    assert forall|j: int| 0 <= j < views_of(segs@).len() implies views_of(segs@)[j] != name@ by {
        assert(views_of(segs@)[j] == segs@[j]@);
    }
    false
}

fn first_index_of(s: &[char], c: char) -> (r: usize)
    ensures
        r as int == index_of(s@, c),
        r <= s.len(),
{
    let mut i: usize = 0;
    while i < s.len() && s[i] != c
        invariant
            i <= s.len(),
            forall|j: int| 0 <= j < i ==> s@[j] != c,
        decreases s.len() - i,
    {
        i += 1;
    }
    proof {
        lemma_index_of(s@, c, i as int);
    }
    i
}

/// Classify the modification target of a given path string.
///
/// Classification is based on path segments (not raw substring matches) so
/// that a harmless parent directory whose name happens to contain `prompt`
/// or `template` does not flip classification. The rules, evaluated in
/// order, are:
///
/// 1. Any segment equal to `skills` classifies as
///    [`ModificationTarget::Skill`].
/// 2. The exact filename `.tau.toml`, or a `.toml` file inside a `config`
///    segment, classifies as [`ModificationTarget::Config`].
/// 3. A segment equal to `prompts` or `templates`, or a filename whose stem
///    starts with `prompt` or `template`, classifies as
///    [`ModificationTarget::Prompt`].
/// 4. A `.rs` file inside a `crates` segment classifies as
///    [`ModificationTarget::Source`].
/// 5. Everything else is [`ModificationTarget::Other`].
pub fn classify_modification_target(path: &str) -> (t: ModificationTarget)
    ensures
        t == classify_spec(path@),
{
    let cs = chars_of(path);
    let segs = path_segments_exec(&cs);
    let ghost sv = views_of(segs@);
    let n = segs.len();
    let last: Vec<char> = if n > 0 {
        sub_chars(&segs[n - 1], 0, segs[n - 1].len())
    } else {
        Vec::new()
    };
    assert(last@ =~= last_segment(sv)) by {
        if n > 0 {
            assert(sv.last() == segs@[n - 1]@);
        }
    };
    if has_segment(&segs, "skills") {
        return ModificationTarget::Skill;
    }
    if chars_eq_str(&last, ".tau.toml") || (ends_with_str(&last, ".toml") && has_segment(
        &segs,
        "config",
    )) {
        return ModificationTarget::Config;
    }
    if has_segment(&segs, "prompts") || has_segment(&segs, "templates") {
        return ModificationTarget::Prompt;
    }
    let stem_len = first_index_of(&last, '.');
    let stem = sub_chars(&last, 0, stem_len);
    assert(stem@ =~= before_first(last@, '.'));
    if starts_with_str(&stem, "prompt") || starts_with_str(&stem, "template") {
        return ModificationTarget::Prompt;
    }
    if ends_with_str(&last, ".rs") && has_segment(&segs, "crates") {
        return ModificationTarget::Source;
    }
    ModificationTarget::Other
}

// ---------------------------------------------------------------------------
// Auto-apply policy
// ---------------------------------------------------------------------------

pub open spec fn auto_apply_spec(config: SelfModificationConfig, target: ModificationTarget) -> bool {
    match target {
        ModificationTarget::Skill => config.auto_apply_skills,
        ModificationTarget::Config => config.auto_apply_config,
        ModificationTarget::Source => config.auto_apply_source,
        ModificationTarget::Prompt => config.auto_apply_skills,
        ModificationTarget::Other => false,
    }
}

/// Determine whether auto-apply is permitted for the given target category.
/// Prompts follow the skills policy; `Other` is never auto-applied.
pub fn can_auto_apply(config: &SelfModificationConfig, target: &ModificationTarget) -> (b: bool)
    ensures
        b == auto_apply_spec(*config, *target),
{
    match target {
        ModificationTarget::Skill => config.auto_apply_skills,
        ModificationTarget::Config => config.auto_apply_config,
        ModificationTarget::Source => config.auto_apply_source,
        ModificationTarget::Prompt => config.auto_apply_skills,
        ModificationTarget::Other => false,
    }
}

/// Prompts are governed by the skills policy, whatever the configuration.
pub proof fn lemma_prompt_follows_skill_policy(config: SelfModificationConfig)
    ensures
        auto_apply_spec(config, ModificationTarget::Prompt) == auto_apply_spec(
            config,
            ModificationTarget::Skill,
        ),
        !auto_apply_spec(config, ModificationTarget::Other),
{
}

// ---------------------------------------------------------------------------
// Proposal identifiers
// ---------------------------------------------------------------------------

pub open spec fn proposal_id_char_ok(c: char) -> bool {
    is_ascii_alnum(c) || c == '-' || c == '_' || c == '.'
}

pub open spec fn all_proposal_id_chars(s: Seq<char>) -> bool {
    forall|i: int| 0 <= i < s.len() ==> proposal_id_char_ok(#[trigger] s[i])
}

/// Index of the first character outside the allow-list.
pub open spec fn first_bad_char_index(s: Seq<char>, i: int) -> bool {
    0 <= i < s.len() && !proposal_id_char_ok(s[i]) && forall|j: int|
        0 <= j < i ==> proposal_id_char_ok(#[trigger] s[j])
}

/// The first character outside the allow-list.
pub open spec fn first_bad_char(s: Seq<char>) -> char {
    s[choose|i: int| first_bad_char_index(s, i)]
}

/// Why a proposal identifier is refused.
#[derive(Debug, Clone, Copy, PartialEq, Eq, Structural)]
pub enum ProposalIdRejection {
    Empty,
    DotOrDotDot,
    DisallowedChar(char),
    ContainsDotDot,
}

/// The checks of [`validate_proposal_id`], in the order they are applied.
pub open spec fn proposal_id_check(s: Seq<char>) -> Option<ProposalIdRejection> {
    if s.len() == 0 {
        Some(ProposalIdRejection::Empty)
    } else if s == "."@ || s == ".."@ {
        Some(ProposalIdRejection::DotOrDotDot)
    } else if !all_proposal_id_chars(s) {
        Some(ProposalIdRejection::DisallowedChar(first_bad_char(s)))
    } else if contains(s, ".."@) {
        Some(ProposalIdRejection::ContainsDotDot)
    } else {
        None
    }
}

/// A proposal identifier that can safely name a directory below the worktrees root.
pub open spec fn valid_proposal_id(s: Seq<char>) -> bool {
    proposal_id_check(s) is None
}

pub proof fn lemma_first_bad_char_unique(s: Seq<char>, i: int, k: int)
    requires
        first_bad_char_index(s, i),
        first_bad_char_index(s, k),
    ensures
        i == k,
{
    if i < k {
        assert(proposal_id_char_ok(s[i]));
    } else if k < i {
        assert(proposal_id_char_ok(s[k]));
    }
}

/// Checks a proposal identifier; `Err` names the first rule it breaks.
pub fn check_proposal_id(proposal_id: &str) -> (r: Result<(), ProposalIdRejection>)
    ensures
        r matches Ok(_) ==> proposal_id_check(proposal_id@) is None,
        r matches Err(e) ==> proposal_id_check(proposal_id@) == Some(e),
{
    let cs = chars_of(proposal_id);
    if cs.len() == 0 {
        return Err(ProposalIdRejection::Empty);
    }
    if chars_eq_str(&cs, ".") || chars_eq_str(&cs, "..") {
        return Err(ProposalIdRejection::DotOrDotDot);
    }
    let mut i: usize = 0;
    while i < cs.len()
        invariant
            i <= cs.len(),
            cs@ == proposal_id@,
            cs@.len() > 0,
            cs@ != "."@,
            cs@ != ".."@,
            forall|j: int| 0 <= j < i ==> proposal_id_char_ok(#[trigger] cs@[j]),
        decreases cs.len() - i,
    {
        let ch = cs[i];
        let ok = is_ascii_alnum_char(ch) || ch == '-' || ch == '_' || ch == '.';
        if !ok {
            proof {
                assert(!proposal_id_char_ok(cs@[i as int]));
                assert(!all_proposal_id_chars(proposal_id@));
                assert(first_bad_char_index(proposal_id@, i as int));
                let k = choose|k: int| first_bad_char_index(proposal_id@, k);
                lemma_first_bad_char_unique(proposal_id@, i as int, k);
                assert(first_bad_char(proposal_id@) == ch);
            }
            return Err(ProposalIdRejection::DisallowedChar(ch));
        }
        i += 1;
    }
    assert(all_proposal_id_chars(cs@));
    if contains_str(&cs, "..") {
        return Err(ProposalIdRejection::ContainsDotDot);
    }
    Ok(())
}

/// The reason a rejected proposal identifier is given.
pub open spec fn proposal_id_message(r: ProposalIdRejection) -> Seq<char> {
    match r {
        ProposalIdRejection::Empty => "proposal_id must not be empty"@,
        ProposalIdRejection::DotOrDotDot => "proposal_id must not be '.' or '..'"@,
        ProposalIdRejection::DisallowedChar(ch) => "proposal_id contains disallowed character "@
            + debug_char(ch) + "; allowed: [A-Za-z0-9._-]"@,
        ProposalIdRejection::ContainsDotDot => "proposal_id must not contain '..'"@,
    }
}

impl ProposalIdRejection {
    /// Human-readable reason.
    pub fn to_string(&self) -> (s: String)
        ensures
            s@ == proposal_id_message(*self),
    {
        match self {
            ProposalIdRejection::Empty => String::from_str("proposal_id must not be empty"),
            ProposalIdRejection::DotOrDotDot => String::from_str(
                "proposal_id must not be '.' or '..'",
            ),
            ProposalIdRejection::DisallowedChar(ch) => {
                let mut out = chars_of("proposal_id contains disallowed character ");
                push_debug_char(&mut out, *ch);
                append_str(&mut out, "; allowed: [A-Za-z0-9._-]");
                string_of(&out)
            },
            ProposalIdRejection::ContainsDotDot => String::from_str(
                "proposal_id must not contain '..'",
            ),
        }
    }
}

/// `std::io::Error` carries the rejection of a proposal identifier, as the
/// filesystem helpers of the runtime report it.
#[verifier::external_type_specification]
#[verifier::external_body]
pub struct ExIoError(std::io::Error);

/// Builds `std::io::Error::new(std::io::ErrorKind::InvalidInput, message)`.
/// Nothing is stated of the error value: its kind (`InvalidInput`) and its
/// message are left unsaid, since the type is opaque here.
#[verifier::external_body]
fn invalid_input_error(message: String) -> std::io::Error {
    std::io::Error::new(std::io::ErrorKind::InvalidInput, message)
}

/// Validate a proposal identifier before it is used to construct filesystem
/// paths.
///
/// Rejects empty strings, `.` and `..`, every character outside
/// `[A-Za-z0-9._-]` (separators, control characters, non-ASCII), and any
/// identifier containing `..`. The error has kind `InvalidInput`.
pub fn validate_proposal_id(proposal_id: &str) -> (r: Result<(), std::io::Error>)
    ensures
        r is Ok <==> valid_proposal_id(proposal_id@),
{
    match check_proposal_id(proposal_id) {
        Ok(()) => Ok(()),
        Err(rejection) => Err(invalid_input_error(rejection.to_string())),
    }
}

/// The shape of identifiers produced by [`generate_proposal_id`].
pub open spec fn generated_proposal_id(t: u64) -> Seq<char> {
    "self-mod-"@ + decimal(t as nat)
}

/// Milliseconds since the Unix epoch from `std::time::SystemTime::now()`
/// (0 when the clock reads before the epoch, capped at `u64::MAX`). Nothing is
/// stated of the value: it is the wall clock.
#[verifier::external_body]
fn unix_time_millis() -> u64 {
    match std::time::SystemTime::now().duration_since(std::time::UNIX_EPOCH) {
        Ok(d) => u64::try_from(d.as_millis()).unwrap_or(u64::MAX),
        Err(_) => 0,
    }
}

/// The proposal identifier for a clock reading: `self-mod-<millis>`.
pub fn proposal_id_from_millis(millis: u64) -> (id: String)
    ensures
        id@ == generated_proposal_id(millis),
{
    let mut out = chars_of("self-mod-");
    let digits = decimal_chars(millis);
    append_chars(&mut out, &digits);
    string_of(&out)
}

/// Generate a proposal identifier `self-mod-<unix millis>` from the clock.
pub fn generate_proposal_id() -> (id: String)
    ensures
        exists|t: u64| id@ == generated_proposal_id(t),
{
    let t = unix_time_millis();
    let id = proposal_id_from_millis(t);
    assert(id@ == generated_proposal_id(t));
    id
}

/// Every identifier that [`generate_proposal_id`] can produce passes
/// [`validate_proposal_id`].
pub proof fn lemma_generated_ids_are_valid(t: u64)
    ensures
        valid_proposal_id(generated_proposal_id(t)),
{
    reveal_strlit("self-mod-");
    reveal_strlit(".");
    reveal_strlit("..");
    let s = generated_proposal_id(t);
    let d = decimal(t as nat);
    lemma_decimal_nonempty(t as nat);
    assert(s.len() > 9);
    assert(s != "."@ && s != ".."@);
    assert forall|i: int| 0 <= i < s.len() implies proposal_id_char_ok(#[trigger] s[i]) by {
        if i >= 9 {
            assert(s[i] == d[i - 9]);
        }
    }
    assert(!contains(s, ".."@)) by {
        if contains(s, ".."@) {
            let i = choose|i: int| occurs_at(s, ".."@, i);
            assert(s.subrange(i, i + 2)[0] == '.');
            assert(s[i] == '.');
            assert(s.subrange(i, i + 2)[1] == '.');
            assert(s[i + 1] == '.');
            if i >= 8 {
                assert(s[i + 1] == d[i + 1 - 9]);
            }
        }
    }
}

// ---------------------------------------------------------------------------
// Paths
// ---------------------------------------------------------------------------

/// `Path::join` on Unix for a relative `rel`: a separator is inserted unless
/// `base` is empty or already ends in `/`.
pub open spec fn path_join(base: Seq<char>, rel: Seq<char>) -> Seq<char> {
    if base.len() == 0 {
        rel
    } else if base.last() == '/' {
        base + rel
    } else {
        base + seq!['/'] + rel
    }
}

pub fn path_join_exec(base: &[char], rel: &[char]) -> (r: Vec<char>)
    ensures
        r@ == path_join(base@, rel@),
{
    if base.len() == 0 {
        return sub_chars(rel, 0, rel.len());
    }
    let mut out = sub_chars(base, 0, base.len());
    if base[base.len() - 1] != '/' {
        out.push('/');
    }
    append_chars(&mut out, rel);
    out
}

/// `<workspace_root>/.tau/self-mod-worktrees`.
pub open spec fn worktrees_root_spec(workspace_root: Seq<char>) -> Seq<char> {
    path_join(workspace_root, SELF_MOD_WORKTREES_SUBDIR@)
}

/// `<workspace_root>/.tau/self-mod-worktrees/<proposal_id>`.
pub open spec fn worktree_path_spec(workspace_root: Seq<char>, proposal_id: Seq<char>) -> Seq<char> {
    path_join(worktrees_root_spec(workspace_root), proposal_id)
}

/// Compute the canonical worktrees root for a workspace.
pub fn worktrees_root(workspace_root: &str) -> (r: String)
    ensures
        r@ == worktrees_root_spec(workspace_root@),
{
    let base = chars_of(workspace_root);
    let sub = chars_of(SELF_MOD_WORKTREES_SUBDIR);
    string_of(&path_join_exec(&base, &sub))
}

/// The worktree path of a proposal; the identifier is validated first.
pub fn worktree_path_for(workspace_root: &str, proposal_id: &str) -> (r: Result<String, ProposalIdRejection>)
    ensures
        r is Ok <==> valid_proposal_id(proposal_id@),
        r matches Ok(p) ==> p@ == worktree_path_spec(workspace_root@, proposal_id@),
        r matches Err(e) ==> proposal_id_check(proposal_id@) == Some(e),
{
    match check_proposal_id(proposal_id) {
        Err(e) => Err(e),
        Ok(()) => {
            let root = worktrees_root(workspace_root);
            let rc = chars_of(root.as_str());
            let ic = chars_of(proposal_id);
            Ok(string_of(&path_join_exec(&rc, &ic)))
        },
    }
}

/// The components `Path::components` yields for a Unix path, the root left
/// out: the `/`-separated parts without empty and `.` parts, except that a
/// leading `.` is kept.
pub open spec fn unix_components(s: Seq<char>) -> Seq<Seq<char>> {
    let parts = normal_segments(split_on(s, '/'));
    if s.len() > 0 && s[0] == '.' && (s.len() == 1 || s[1] == '/') {
        seq!["."@] + parts
    } else {
        parts
    }
}

proof fn lemma_split_append(a: Seq<char>, t: Seq<char>)
    requires
        forall|i: int| 0 <= i < t.len() ==> #[trigger] t[i] != '/',
    ensures
        split_state(a + t, '/') == (split_state(a, '/').0, split_state(a, '/').1 + t),
    decreases t.len(),
{
    if t.len() == 0 {
        assert(a + t =~= a);
        assert(split_state(a, '/').1 + t =~= split_state(a, '/').1);
    } else {
        let t0 = t.drop_last();
        assert forall|i: int| 0 <= i < t0.len() implies #[trigger] t0[i] != '/' by {
            assert(t0[i] == t[i]);
        }
        lemma_split_append(a, t0);
        assert((a + t).drop_last() =~= a + t0);
        assert((a + t).last() == t[t.len() - 1]);
        assert((split_state(a, '/').1 + t0).push(t.last()) =~= split_state(a, '/').1 + t);
    }
}

/// Joining a root with one normal component adds exactly that component.
proof fn lemma_join_adds_component(root: Seq<char>, id: Seq<char>)
    requires
        root.len() > 0,
        id.len() > 0,
        id != "."@,
        forall|i: int| 0 <= i < id.len() ==> #[trigger] id[i] != '/',
    ensures
        unix_components(path_join(root, id)) == unix_components(root).push(id),
{
    reveal_strlit(".");
    let p = if root.last() == '/' {
        root
    } else {
        root.push('/')
    };
    assert(path_join(root, id) =~= p + id);
    let ss = split_state(root, '/');
    if root.last() == '/' {
        assert(root =~= root.drop_last().push('/'));
        let sd = split_state(root.drop_last(), '/');
        assert(ss == (sd.0.push(sd.1), Seq::<char>::empty()));
        assert(split_on(root, '/') =~= sd.0.push(sd.1).push(Seq::<char>::empty()));
        assert(split_on(root, '/').drop_last() =~= sd.0.push(sd.1));
        assert(normal_segments(split_on(root, '/')) == normal_segments(sd.0.push(sd.1)));
        lemma_split_append(p, id);
        assert(split_on(p + id, '/') =~= sd.0.push(sd.1).push(id));
        assert(split_on(p + id, '/').drop_last() =~= sd.0.push(sd.1));
    } else {
        assert(p.drop_last() =~= root);
        assert(split_state(p, '/') == (ss.0.push(ss.1), Seq::<char>::empty()));
        lemma_split_append(p, id);
        assert(Seq::<char>::empty() + id =~= id);
        assert(split_on(p + id, '/') =~= ss.0.push(ss.1).push(id));
        assert(split_on(p + id, '/').drop_last() =~= split_on(root, '/'));
    }
    let q = path_join(root, id);
    assert(q[0] == root[0]);
    if root.len() >= 2 {
        assert(q[1] == root[1]);
    } else if root[0] == '.' {
        assert(q[1] == '/');
    }
    assert(unix_components(q) =~= unix_components(root).push(id));
}

/// A validated identifier never leaves the worktrees root: its worktree lies
/// strictly inside `<workspace_root>/.tau/self-mod-worktrees`, exactly one
/// component (the identifier itself) below it.
pub proof fn lemma_worktree_path_strictly_inside_root(ws: Seq<char>, id: Seq<char>)
    requires
        valid_proposal_id(id),
    ensures
        strictly_inside(worktrees_root_spec(ws), worktree_path_spec(ws, id)),
        unix_components(worktree_path_spec(ws, id)) == unix_components(worktrees_root_spec(ws)).push(
            id,
        ),
{
    reveal_strlit(".tau/self-mod-worktrees");
    let root = worktrees_root_spec(ws);
    assert(root.len() > 0);
    assert forall|i: int| 0 <= i < id.len() implies #[trigger] id[i] != '/' by {
        assert(proposal_id_char_ok(id[i]));
    }
    lemma_join_adds_component(root, id);
    let p = worktree_path_spec(ws, id);
    assert(p[0] == root[0]);
    let rs = unix_components(root);
    assert(unix_components(p).take(rs.len() as int) =~= rs);
}

/// `p.starts_with(root) && p != root` for Unix paths: both absolute or both
/// relative, and the components of `root` a proper prefix of those of `p`.
pub open spec fn strictly_inside(root: Seq<char>, p: Seq<char>) -> bool {
    let rs = unix_components(root);
    let ps = unix_components(p);
    &&& (root.len() > 0 && root[0] == '/') == (p.len() > 0 && p[0] == '/')
    &&& rs.len() < ps.len()
    &&& ps.take(rs.len() as int) == rs
}

fn unix_components_exec(s: &[char]) -> (r: Vec<Vec<char>>)
    ensures
        views_of(r@) == unix_components(s@),
{
    let parts = split_on_chars(s, '/');
    let ghost pv = views_of(parts@);
    let mut out: Vec<Vec<char>> = Vec::new();
    if s.len() > 0 && s[0] == '.' && (s.len() == 1 || s[1] == '/') {
        out.push(chars_of("."));
    }
    let ghost head = views_of(out@);
    let mut i: usize = 0;
    while i < parts.len()
        invariant
            i <= parts.len(),
            pv == views_of(parts@),
            pv == split_on(s@, '/'),
            views_of(out@) == head + normal_segments(pv.take(i as int)),
        decreases parts.len() - i,
    {
        assert(pv.take(i + 1).drop_last() =~= pv.take(i as int));
        assert(pv.take(i + 1).last() == parts@[i as int]@);
        let ghost n0 = normal_segments(pv.take(i as int));
        if parts[i].len() > 0 && !chars_eq_str(&parts[i], ".") {
            let ghost before = views_of(out@);
            let c = sub_chars(&parts[i], 0, parts[i].len());
            out.push(c);
            assert(c@ == pv[i as int]);
            assert(normal_segments(pv.take(i + 1)) == n0.push(pv[i as int]));
            assert(views_of(out@) =~= before.push(c@));
            assert(head + n0.push(c@) =~= (head + n0).push(c@));
        } else {
            assert(normal_segments(pv.take(i + 1)) == n0);
        }
        i += 1;
    }
    assert(pv.take(parts.len() as int) =~= pv);
    assert(views_of(out@) =~= unix_components(s@));
    out
}

/// Containment test for the cleanup of a worktree: `canonical_worktree` must lie
/// strictly below `canonical_root` (the root itself is refused), component by
/// component as `Path::starts_with` compares them.
pub fn worktree_within_root(canonical_root: &str, canonical_worktree: &str) -> (b: bool)
    ensures
        b == strictly_inside(canonical_root@, canonical_worktree@),
{
    let rc = chars_of(canonical_root);
    let wc = chars_of(canonical_worktree);
    let r_abs = rc.len() > 0 && rc[0] == '/';
    let w_abs = wc.len() > 0 && wc[0] == '/';
    if r_abs != w_abs {
        return false;
    }
    let rs = unix_components_exec(&rc);
    let ws = unix_components_exec(&wc);
    if rs.len() >= ws.len() {
        return false;
    }
    let mut i: usize = 0;
    while i < rs.len()
        invariant
            i <= rs.len() < ws.len(),
            views_of(rs@) == unix_components(canonical_root@),
            views_of(ws@) == unix_components(canonical_worktree@),
            forall|j: int| 0 <= j < i ==> rs@[j]@ == ws@[j]@,
        decreases rs.len() - i,
    {
        if !chars_eq(&rs[i], &ws[i]) {
            proof {
                let a = views_of(ws@).take(rs.len() as int);
                let b = views_of(rs@);
                assert(a[i as int] == ws@[i as int]@);
                assert(b[i as int] == rs@[i as int]@);
                assert(a != b);
                assert(unix_components(canonical_worktree@).take(unix_components(canonical_root@).len() as int) != unix_components(canonical_root@));
            }
            return false;
        }
        i += 1;
    }
    assert(views_of(ws@).take(rs.len() as int) =~= views_of(rs@));
    true
}

} // verus!
