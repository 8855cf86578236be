//! Settings and task categories of the live reinforcement-learning runtime:
//! the boolean and integer environment values it accepts, and how a prompt
//! is filed under a task category. The training store, the optimizer and the
//! floating-point statistics are the caller's.
use vstd::prelude::*;

use crate::openrouter::{opt_string_view, process_lookup};
use crate::text::{
    append_chars, decimal, decimal_chars, append_str, ascii_lower, ascii_lower_char, chars_eq, chars_eq_str, chars_of, contains,
    contains_str, is_ascii_alnum, is_ascii_alnum_char, lower_all, lower_chars, starts_with,
    starts_with_str, string_of, string_views, sub_chars, trim, trim_chars,
};

verus! {

pub const LIVE_RL_ENABLED_ENV: &'static str = "TAU_LIVE_RL_ENABLED";

pub const LIVE_RL_STORE_PATH_ENV: &'static str = "TAU_LIVE_RL_STORE_SQLITE";

pub const LIVE_RL_UPDATE_INTERVAL_ENV: &'static str = "TAU_LIVE_RL_UPDATE_INTERVAL";

pub const LIVE_RL_MAX_ROLLOUTS_ENV: &'static str = "TAU_LIVE_RL_MAX_ROLLOUTS_PER_UPDATE";

pub const LIVE_RL_MAX_FAILURE_STREAK_ENV: &'static str = "TAU_LIVE_RL_MAX_FAILURE_STREAK";

pub const LIVE_RL_APO_ENABLED_ENV: &'static str = "TAU_LIVE_RL_APO_ENABLED";

pub const LIVE_RL_APO_MIN_SAMPLES_ENV: &'static str = "TAU_LIVE_RL_APO_MIN_SAMPLES";

pub const LIVE_RL_APO_MAX_SAMPLES_ENV: &'static str = "TAU_LIVE_RL_APO_MAX_SAMPLES";

// ---------------------------------------------------------------------------
// Environment values
// ---------------------------------------------------------------------------

/// `1`, `true`, `yes`, `on` and `0`, `false`, `no`, `off`, trimmed and in any
/// ASCII case.
pub open spec fn parse_bool_spec(raw: Seq<char>) -> Option<bool> {
    let v = lower_all(trim(raw));
    if v == "1"@ || v == "true"@ || v == "yes"@ || v == "on"@ {
        Some(true)
    } else if v == "0"@ || v == "false"@ || v == "no"@ || v == "off"@ {
        Some(false)
    } else {
        None
    }
}

pub fn parse_bool_env(raw: &str) -> (r: Option<bool>)
    ensures
        r == parse_bool_spec(raw@),
{
    let v = lower_chars(&trim_chars(&chars_of(raw)));
    if chars_eq_str(&v, "1") || chars_eq_str(&v, "true") || chars_eq_str(&v, "yes")
        || chars_eq_str(&v, "on") {
        Some(true)
    } else if chars_eq_str(&v, "0") || chars_eq_str(&v, "false") || chars_eq_str(&v, "no")
        || chars_eq_str(&v, "off") {
        Some(false)
    } else {
        None
    }
}

pub open spec fn is_digit(c: char) -> bool {
    '0' <= c && c <= '9'
}

/// The number written by the decimal digits `d`.
pub open spec fn digits_value(d: Seq<char>) -> nat
    decreases d.len(),
{
    if d.len() == 0 {
        0
    } else {
        digits_value(d.drop_last()) * 10 + ((d.last() as u32) - ('0' as u32)) as nat
    }
}

/// `usize::from_str`: an optional `+`, then at least one decimal digit, and
/// the value must fit a `usize`.
pub open spec fn unsigned_digits(s: Seq<char>) -> Seq<char> {
    if s.len() > 0 && s[0] == '+' {
        s.drop_first()
    } else {
        s
    }
}

pub open spec fn all_digits(d: Seq<char>) -> bool {
    forall|i: int| 0 <= i < d.len() ==> is_digit(#[trigger] d[i])
}

pub open spec fn parse_usize_spec(s: Seq<char>) -> Option<nat> {
    let d = unsigned_digits(s);
    if d.len() == 0 || !all_digits(d) {
        None
    } else if digits_value(d) > usize::MAX {
        None
    } else {
        Some(digits_value(d))
    }
}

proof fn lemma_digits_value_grows(d: Seq<char>, i: int)
    requires
        0 <= i <= d.len(),
        forall|j: int| 0 <= j < d.len() ==> is_digit(#[trigger] d[j]),
    ensures
        digits_value(d) >= digits_value(d.take(i)),
    decreases d.len() - i,
{
    if i < d.len() {
        lemma_digits_value_grows(d, i + 1);
        assert(d.take(i + 1).drop_last() =~= d.take(i));
    } else {
        assert(d.take(i) =~= d);
    }
}

pub fn parse_usize(s: &[char]) -> (r: Option<usize>)
    ensures
        match parse_usize_spec(s@) {
            Some(v) => r == Some(v as usize),
            None => r is None,
        },
{
    let start: usize = if s.len() > 0 && s[0] == '+' { 1 } else { 0 };
    let ghost d = unsigned_digits(s@);
    assert(d =~= s@.skip(start as int));
    if start == s.len() {
        return None;
    }
    let mut acc: usize = 0;
    let mut i: usize = start;
    while i < s.len()
        invariant
            start <= i <= s.len(),
            start == (if s@.len() > 0 && s@[0] == '+' { 1usize } else { 0usize }),
            d == unsigned_digits(s@),
            d =~= s@.skip(start as int),
            forall|j: int| 0 <= j < i - start ==> is_digit(#[trigger] d[j]),
            acc == digits_value(d.take(i - start)),
        decreases s.len() - i,
    {
        let c = s[i];
        assert(d[i - start] == c);
        if !('0' <= c && c <= '9') {
            assert(!is_digit(d[i - start]));
            return None;
        }
        assert(d.take(i - start + 1).drop_last() =~= d.take(i - start));
        let digit: usize = ((c as u32) - ('0' as u32)) as usize;
        let next = match acc.checked_mul(10) {
            Some(m) => m.checked_add(digit),
            None => None,
        };
        match next {
            Some(v) => {
                acc = v;
            },
            None => {
                proof {
                    assert(d.take(i - start + 1).last() == c);
                    assert(digits_value(d.take(i - start + 1)) > usize::MAX);
                    if all_digits(d) {
                        lemma_digits_value_grows(d, i - start + 1);
                    }
                }
                return None;
            },
        }
        i += 1;
    }
    assert(d.take(d.len() as int) =~= d);
    Some(acc)
}

/// `"<key> must be a positive integer"` or `"<key> must be greater than 0"`.
pub open spec fn positive_usize_spec(raw: Option<Seq<char>>, default: usize, key: Seq<char>) -> Result<
    usize,
    Seq<char>,
> {
    match raw {
        None => Ok(default),
        Some(r) => {
            let t = trim(r);
            if t.len() == 0 {
                Ok(default)
            } else {
                match parse_usize_spec(t) {
                    None => Err(key + " must be a positive integer"@),
                    Some(v) => if v == 0 {
                        Err(key + " must be greater than 0"@)
                    } else {
                        Ok(v as usize)
                    },
                }
            }
        },
    }
}

pub open spec fn opt_str_view(v: Option<&str>) -> Option<Seq<char>> {
    match v {
        Some(s) => Some(s@),
        None => None,
    }
}

pub open spec fn result_view(r: Result<usize, String>) -> Result<usize, Seq<char>> {
    match r {
        Ok(v) => Ok(v),
        Err(e) => Err(e@),
    }
}

/// A positive integer setting; blank or absent means `default`.
pub fn parse_positive_usize_env(raw: Option<&str>, default: usize, key: &str) -> (r: Result<
    usize,
    String,
>)
    ensures
        result_view(r) == positive_usize_spec(opt_str_view(raw), default, key@),
{
    let raw = match raw {
        Some(r) => r,
        None => return Ok(default),
    };
    let t = trim_chars(&chars_of(raw));
    if t.len() == 0 {
        return Ok(default);
    }
    match parse_usize(&t) {
        None => {
            let mut m = chars_of(key);
            append_str(&mut m, " must be a positive integer");
            Err(string_of(&m))
        },
        Some(v) => {
            if v == 0 {
                let mut m = chars_of(key);
                append_str(&mut m, " must be greater than 0");
                Err(string_of(&m))
            } else {
                Ok(v)
            }
        },
    }
}


// ---------------------------------------------------------------------------
// Task categories
// ---------------------------------------------------------------------------

/// Lower-cases ASCII letters and digits and turns each run of other
/// characters into one `_`; the flag says whether the last character written
/// was such a separator.
pub open spec fn collapse_state(s: Seq<char>) -> (Seq<char>, bool)
    decreases s.len(),
{
    if s.len() == 0 {
        (seq![], false)
    } else {
        let (out, prior) = collapse_state(s.drop_last());
        let c = s.last();
        if is_ascii_alnum(c) {
            (out.push(ascii_lower(c)), false)
        } else if !prior {
            (out.push('_'), true)
        } else {
            (out, prior)
        }
    }
}

pub open spec fn strip_leading_underscores(s: Seq<char>) -> Seq<char>
    decreases s.len(),
{
    if s.len() > 0 && s[0] == '_' {
        strip_leading_underscores(s.drop_first())
    } else {
        s
    }
}

pub open spec fn strip_trailing_underscores(s: Seq<char>) -> Seq<char>
    decreases s.len(),
{
    if s.len() > 0 && s.last() == '_' {
        strip_trailing_underscores(s.drop_last())
    } else {
        s
    }
}

/// `str::trim_matches('_')`.
pub open spec fn trim_underscores(s: Seq<char>) -> Seq<char> {
    strip_trailing_underscores(strip_leading_underscores(s))
}

/// The canonical name of a normalised category.
pub open spec fn category_alias(n: Seq<char>) -> Seq<char> {
    if n == "debug"@ || n == "debugging"@ || n == "bugfix"@ || n == "bug_fix"@ {
        "debugging"@
    } else if n == "refactor"@ || n == "refactoring"@ {
        "refactoring"@
    } else if n == "codegen"@ || n == "implementation"@ || n == "implementing"@ {
        "code_generation"@
    } else if n == "plan"@ || n == "planning"@ {
        "planning"@
    } else if n == "ops"@ || n == "operational"@ || n == "operations"@ {
        "operations"@
    } else if n == "q_a"@ || n == "qa"@ || n == "question"@ || n == "question_answer"@ || n
        == "question_answering"@ {
        "qa"@
    } else if n == "general"@ || n == "misc"@ || n == "miscellaneous"@ {
        "general"@
    } else if starts_with(n, "debug_"@) {
        "debugging_"@ + n.skip(6)
    } else {
        n
    }
}

/// The canonical category of a raw label, or `None` when nothing is left of it.
pub open spec fn canonical_category_spec(raw: Seq<char>) -> Option<Seq<char>> {
    let t = trim(raw);
    if t.len() == 0 {
        None
    } else {
        let n = trim_underscores(collapse_state(t).0);
        if n.len() == 0 {
            None
        } else {
            Some(category_alias(n))
        }
    }
}

fn trim_underscores_exec(s: &[char]) -> (r: Vec<char>)
    ensures
        r@ == trim_underscores(s@),
{
    let mut lo: usize = 0;
    assert(s@.subrange(0, s@.len() as int) =~= s@);
    while lo < s.len() && s[lo] == '_'
        invariant
            lo <= s.len(),
            strip_leading_underscores(s@.subrange(lo as int, s.len() as int))
                == strip_leading_underscores(s@),
        decreases s.len() - lo,
    {
        assert(s@.subrange(lo as int, s.len() as int).drop_first() =~= s@.subrange(
            lo + 1,
            s.len() as int,
        ));
        lo += 1;
    }
    let ghost t = s@.subrange(lo as int, s.len() as int);
    assert(strip_leading_underscores(t) == t);
    let mut hi: usize = s.len();
    assert(t =~= s@.subrange(lo as int, hi as int));
    while hi > lo && s[hi - 1] == '_'
        invariant
            lo <= hi <= s.len(),
            strip_trailing_underscores(s@.subrange(lo as int, hi as int)) == trim_underscores(s@),
        decreases hi,
    {
        assert(s@.subrange(lo as int, hi as int).drop_last() =~= s@.subrange(lo as int, hi - 1));
        hi -= 1;
    }
    let r = sub_chars(s, lo, hi);
    if hi > lo {
        assert(r@.last() == s@[hi - 1]);
    }
    assert(strip_trailing_underscores(r@) == r@);
    r
}

fn category_alias_exec(n: &[char]) -> (r: Vec<char>)
    ensures
        r@ == category_alias(n@),
{
    if chars_eq_str(n, "debug") || chars_eq_str(n, "debugging") || chars_eq_str(n, "bugfix")
        || chars_eq_str(n, "bug_fix") {
        chars_of("debugging")
    } else if chars_eq_str(n, "refactor") || chars_eq_str(n, "refactoring") {
        chars_of("refactoring")
    } else if chars_eq_str(n, "codegen") || chars_eq_str(n, "implementation") || chars_eq_str(
        n,
        "implementing",
    ) {
        chars_of("code_generation")
    } else if chars_eq_str(n, "plan") || chars_eq_str(n, "planning") {
        chars_of("planning")
    } else if chars_eq_str(n, "ops") || chars_eq_str(n, "operational") || chars_eq_str(
        n,
        "operations",
    ) {
        chars_of("operations")
    } else if chars_eq_str(n, "q_a") || chars_eq_str(n, "qa") || chars_eq_str(n, "question")
        || chars_eq_str(n, "question_answer") || chars_eq_str(n, "question_answering") {
        chars_of("qa")
    } else if chars_eq_str(n, "general") || chars_eq_str(n, "misc") || chars_eq_str(
        n,
        "miscellaneous",
    ) {
        chars_of("general")
    } else if starts_with_str(n, "debug_") {
        proof {
            reveal_strlit("debug_");
        }
        let mut out = chars_of("debugging_");
        let rest = sub_chars(n, 6, n.len());
        assert(rest@ =~= n@.skip(6));
        crate::text::append_chars(&mut out, &rest);
        out
    } else {
        sub_chars(n, 0, n.len())
    }
}

/// Canonical task category of a label: trimmed, lower-cased, runs of other
/// characters turned into one `_`, outer `_` dropped, and known synonyms
/// mapped to one name (`debug_*` becomes `debugging_*`).
pub fn canonicalize_task_category(raw: &str) -> (r: Option<String>)
    ensures
        opt_string_view(r) == canonical_category_spec(raw@),
{
    let t = trim_chars(&chars_of(raw));
    if t.len() == 0 {
        return None;
    }
    let mut normalized: Vec<char> = Vec::new();
    let mut prior_separator = false;
    let mut i: usize = 0;
    assert(t@.take(0) =~= seq![]);
    while i < t.len()
        invariant
            i <= t.len(),
            (normalized@, prior_separator) == collapse_state(t@.take(i as int)),
        decreases t.len() - i,
    {
        let ch = t[i];
        assert(t@.take(i + 1).drop_last() =~= t@.take(i as int));
        assert(t@.take(i + 1).last() == ch);
        if is_ascii_alnum_char(ch) {
            normalized.push(ascii_lower_char(ch));
            prior_separator = false;
        } else if !prior_separator {
            normalized.push('_');
            prior_separator = true;
        }
        i += 1;
    }
    assert(t@.take(t.len() as int) =~= t@);
    let n = trim_underscores_exec(&normalized);
    if n.len() == 0 {
        return None;
    }
    Some(string_of(&category_alias_exec(&n)))
}

/// The category a prompt's keywords point to, before canonicalisation.
pub open spec fn keyword_category(n: Seq<char>) -> Seq<char> {
    if contains(n, "debug"@) || contains(n, "fix"@) || contains(n, "error"@) || contains(n, "panic"@)
        || contains(n, "trace"@) || contains(n, "failure"@) || contains(n, "flaky"@) {
        "debugging"@
    } else if contains(n, "refactor"@) || contains(n, "cleanup"@) || contains(n, "rename"@)
        || contains(n, "extract"@) {
        "refactoring"@
    } else if contains(n, "implement"@) || contains(n, "build"@) || contains(n, "create"@)
        || contains(n, "feature"@) || contains(n, "write code"@) {
        "code_generation"@
    } else if contains(n, "plan"@) || contains(n, "roadmap"@) || contains(n, "milestone"@)
        || contains(n, "spec"@) || contains(n, "tasks"@) {
        "planning"@
    } else if contains(n, "deploy"@) || contains(n, "release"@) || contains(n, "incident"@)
        || contains(n, "runbook"@) || contains(n, "ops"@) {
        "operations"@
    } else if contains(n, "why"@) || contains(n, "what"@) || contains(n, "summarize"@) || contains(
        n,
        "explain"@,
    ) || contains(n, "status"@) || contains(n, "question"@) {
        "qa"@
    } else {
        "general"@
    }
}

pub open spec fn infer_category_spec(prompt: Seq<char>) -> Seq<char> {
    match canonical_category_spec(keyword_category(lower_all(prompt))) {
        Some(c) => c,
        None => "general"@,
    }
}

fn keyword_category_exec(n: &[char]) -> (r: &'static str)
    ensures
        r@ == keyword_category(n@),
{
    if contains_str(n, "debug") || contains_str(n, "fix") || contains_str(n, "error")
        || contains_str(n, "panic") || contains_str(n, "trace") || contains_str(n, "failure")
        || contains_str(n, "flaky") {
        "debugging"
    } else if contains_str(n, "refactor") || contains_str(n, "cleanup") || contains_str(n, "rename")
        || contains_str(n, "extract") {
        "refactoring"
    } else if contains_str(n, "implement") || contains_str(n, "build") || contains_str(n, "create")
        || contains_str(n, "feature") || contains_str(n, "write code") {
        "code_generation"
    } else if contains_str(n, "plan") || contains_str(n, "roadmap") || contains_str(n, "milestone")
        || contains_str(n, "spec") || contains_str(n, "tasks") {
        "planning"
    } else if contains_str(n, "deploy") || contains_str(n, "release") || contains_str(n, "incident")
        || contains_str(n, "runbook") || contains_str(n, "ops") {
        "operations"
    } else if contains_str(n, "why") || contains_str(n, "what") || contains_str(n, "summarize")
        || contains_str(n, "explain") || contains_str(n, "status") || contains_str(n, "question") {
        "qa"
    } else {
        "general"
    }
}

/// The seven categories the live learner files work under.
pub open spec fn is_known_category(c: Seq<char>) -> bool {
    ||| c == "debugging"@
    ||| c == "refactoring"@
    ||| c == "code_generation"@
    ||| c == "planning"@
    ||| c == "operations"@
    ||| c == "qa"@
    ||| c == "general"@
}

/// Lower-case letters, digits and single inner underscores.
pub open spec fn snake_shaped(s: Seq<char>) -> bool {
    &&& s.len() > 0
    &&& s[0] != '_'
    &&& s.last() != '_'
    &&& forall|i: int|
        0 <= i < s.len() ==> ('a' <= #[trigger] s[i] <= 'z') || ('0' <= s[i] <= '9') || s[i]
            == '_'
    &&& forall|i: int| 0 < i < s.len() && #[trigger] s[i] == '_' ==> s[i - 1] != '_'
}

proof fn lemma_collapse_snake(s: Seq<char>)
    requires
        forall|i: int|
            0 <= i < s.len() ==> ('a' <= #[trigger] s[i] <= 'z') || ('0' <= s[i] <= '9') || s[i]
                == '_',
        forall|i: int| 0 < i < s.len() && #[trigger] s[i] == '_' ==> s[i - 1] != '_',
        s.len() > 0 ==> s[0] != '_',
    ensures
        collapse_state(s) == (s, s.len() > 0 && s.last() == '_'),
    decreases s.len(),
{
    if s.len() > 0 {
        let p = s.drop_last();
        assert forall|i: int| 0 < i < p.len() && #[trigger] p[i] == '_' implies p[i - 1] != '_' by {
            assert(s[i] == p[i]);
        }
        assert forall|i: int| 0 <= i < p.len() implies ('a' <= #[trigger] p[i] <= 'z') || ('0'
            <= p[i] <= '9') || p[i] == '_' by {
            assert(s[i] == p[i]);
        }
        lemma_collapse_snake(p);
        let c = s.last();
        assert(s[s.len() - 1] == c);
        if c == '_' {
            assert(s.len() > 1);
            assert(p.last() == s[s.len() - 2]);
        }
        assert(p.push(c) =~= s);
    }
}

/// A snake-shaped name passes through canonicalisation up to its alias.
proof fn lemma_snake_canonical(s: Seq<char>)
    requires
        snake_shaped(s),
    ensures
        canonical_category_spec(s) == Some(category_alias(s)),
{
    assert(!crate::text::is_ws(s[0]));
    assert(!crate::text::is_ws(s.last()));
    assert(crate::text::trim_start(s) == s);
    assert(crate::text::trim_end(s) == s);
    lemma_collapse_snake(s);
    assert(strip_leading_underscores(s) == s);
    assert(strip_trailing_underscores(s) == s);
}

/// Each of the seven names is already canonical.
pub proof fn lemma_known_categories_canonical(c: Seq<char>)
    requires
        is_known_category(c),
    ensures
        canonical_category_spec(c) == Some(c),
{
    reveal_strlit("debugging");
    reveal_strlit("refactoring");
    reveal_strlit("code_generation");
    reveal_strlit("planning");
    reveal_strlit("operations");
    reveal_strlit("qa");
    reveal_strlit("general");
    reveal_strlit("debug");
    reveal_strlit("bugfix");
    reveal_strlit("bug_fix");
    reveal_strlit("refactor");
    reveal_strlit("codegen");
    reveal_strlit("implementation");
    reveal_strlit("implementing");
    reveal_strlit("plan");
    reveal_strlit("ops");
    reveal_strlit("operational");
    reveal_strlit("q_a");
    reveal_strlit("question");
    reveal_strlit("question_answer");
    reveal_strlit("question_answering");
    reveal_strlit("misc");
    reveal_strlit("miscellaneous");
    reveal_strlit("debug_");
    assert(snake_shaped(c));
    lemma_snake_canonical(c);
    if starts_with(c, "debug_"@) {
        assert(c.subrange(0, 6)[5] == "debug_"@[5]);
        assert(c[5] == '_');
    }
    assert(category_alias(c) == c);
}

/// A raw category label as canonicalisation reads it: trimmed, lower-cased,
/// every run of other characters made one `_`, and outer `_` removed.
pub open spec fn category_label(raw: Seq<char>) -> Seq<char> {
    trim_underscores(collapse_state(trim(raw)).0)
}

/// Every listed synonym canonicalises to its category's name, whatever the
/// case, spacing or punctuation of the raw label: synonyms of one category
/// share one canonical name.
pub proof fn lemma_synonyms_share_canonical_name(raw: Seq<char>)
    ensures
        category_label(raw) == "debug"@ || category_label(raw) == "debugging"@ || category_label(raw)
            == "bugfix"@ || category_label(raw) == "bug_fix"@ ==> canonical_category_spec(raw)
            == Some("debugging"@),
        category_label(raw) == "refactor"@ || category_label(raw) == "refactoring"@
            ==> canonical_category_spec(raw) == Some("refactoring"@),
        category_label(raw) == "codegen"@ || category_label(raw) == "implementation"@
            || category_label(raw) == "implementing"@ || category_label(raw) == "code_generation"@
            ==> canonical_category_spec(raw) == Some("code_generation"@),
        category_label(raw) == "plan"@ || category_label(raw) == "planning"@
            ==> canonical_category_spec(raw) == Some("planning"@),
        category_label(raw) == "ops"@ || category_label(raw) == "operational"@ || category_label(raw)
            == "operations"@ ==> canonical_category_spec(raw) == Some("operations"@),
        category_label(raw) == "q_a"@ || category_label(raw) == "qa"@ || category_label(raw)
            == "question"@ || category_label(raw) == "question_answer"@ || category_label(raw)
            == "question_answering"@ ==> canonical_category_spec(raw) == Some("qa"@),
        category_label(raw) == "general"@ || category_label(raw) == "misc"@ || category_label(raw)
            == "miscellaneous"@ ==> canonical_category_spec(raw) == Some("general"@),
{
    reveal_strlit("debugging");
    reveal_strlit("refactoring");
    reveal_strlit("code_generation");
    reveal_strlit("planning");
    reveal_strlit("operations");
    reveal_strlit("qa");
    reveal_strlit("general");
    reveal_strlit("debug");
    reveal_strlit("bugfix");
    reveal_strlit("bug_fix");
    reveal_strlit("refactor");
    reveal_strlit("codegen");
    reveal_strlit("implementation");
    reveal_strlit("implementing");
    reveal_strlit("plan");
    reveal_strlit("ops");
    reveal_strlit("operational");
    reveal_strlit("q_a");
    reveal_strlit("question");
    reveal_strlit("question_answer");
    reveal_strlit("question_answering");
    reveal_strlit("misc");
    reveal_strlit("miscellaneous");
    reveal_strlit("debug_");
    let n = category_label(raw);
    if trim(raw).len() == 0 {
        assert(collapse_state(trim(raw)).0 =~= Seq::<char>::empty());
        assert(n.len() == 0);
    }
    if n.len() > 0 {
        assert(canonical_category_spec(raw) == Some(category_alias(n)));
        if n == "code_generation"@ {
            assert(n != "debug"@ && n != "debugging"@ && n != "bugfix"@ && n != "bug_fix"@);
            assert(n != "refactor"@ && n != "refactoring"@ && n != "codegen"@);
            assert(n != "implementation"@ && n != "implementing"@);
            assert(!starts_with(n, "debug_"@)) by {
                assert(n[0] != "debug_"@[0]);
            }
            assert(category_alias(n) == n);
        }
        if n == "codegen"@ || n == "implementation"@ || n == "implementing"@ {
            assert(n[0] == 'c' || n[0] == 'i');
            assert(n != "debug"@ && n != "debugging"@) by {
                assert("debug"@[0] == 'd' && "debugging"@[0] == 'd');
            }
            assert(n != "bugfix"@ && n != "bug_fix"@) by {
                assert("bugfix"@[0] == 'b' && "bug_fix"@[0] == 'b');
            }
            assert(n != "refactor"@ && n != "refactoring"@) by {
                assert("refactor"@[0] == 'r' && "refactoring"@[0] == 'r');
            }
            assert(category_alias(n) == "code_generation"@);
        }
        if n == "plan"@ || n == "planning"@ {
            assert(n[0] == 'p');
            assert(n != "debug"@ && n != "debugging"@) by {
                assert("debug"@[0] == 'd' && "debugging"@[0] == 'd');
            }
            assert(n != "bugfix"@ && n != "bug_fix"@) by {
                assert("bugfix"@[0] == 'b' && "bug_fix"@[0] == 'b');
            }
            assert(n != "refactor"@ && n != "refactoring"@) by {
                assert("refactor"@[0] == 'r' && "refactoring"@[0] == 'r');
            }
            assert(n != "codegen"@) by {
                assert("codegen"@[0] == 'c');
            }
            assert(n != "implementation"@ && n != "implementing"@) by {
                assert("implementation"@[0] == 'i' && "implementing"@[0] == 'i');
            }
            assert(category_alias(n) == "planning"@);
        }
    }
}

pub open spec fn snake_chars(s: Seq<char>) -> bool {
    &&& forall|i: int|
        0 <= i < s.len() ==> ('a' <= #[trigger] s[i] <= 'z') || ('0' <= s[i] <= '9') || s[i]
            == '_'
    &&& forall|i: int| 0 < i < s.len() && #[trigger] s[i] == '_' ==> s[i - 1] != '_'
}

proof fn lemma_collapse_shape(s: Seq<char>)
    ensures
        snake_chars(collapse_state(s).0),
        collapse_state(s).1 <==> (collapse_state(s).0.len() > 0 && collapse_state(s).0.last()
            == '_'),
    decreases s.len(),
{
    if s.len() > 0 {
        lemma_collapse_shape(s.drop_last());
        let (out, prior) = collapse_state(s.drop_last());
        let c = s.last();
        if is_ascii_alnum(c) {
            let o2 = out.push(ascii_lower(c));
            assert forall|i: int| 0 <= i < o2.len() implies ('a' <= #[trigger] o2[i] <= 'z') || (
            '0' <= o2[i] <= '9') || o2[i] == '_' by {
                if i < out.len() {
                    assert(o2[i] == out[i]);
                }
            }
            assert forall|i: int| 0 < i < o2.len() && #[trigger] o2[i] == '_' implies o2[i - 1]
                != '_' by {
                assert(o2[i] == out[i]);
                assert(o2[i - 1] == out[i - 1]);
            }
        } else if !prior {
            let o2 = out.push('_');
            assert forall|i: int| 0 <= i < o2.len() implies ('a' <= #[trigger] o2[i] <= 'z') || (
            '0' <= o2[i] <= '9') || o2[i] == '_' by {
                if i < out.len() {
                    assert(o2[i] == out[i]);
                }
            }
            assert forall|i: int| 0 < i < o2.len() && #[trigger] o2[i] == '_' implies o2[i - 1]
                != '_' by {
                if i < out.len() {
                    assert(o2[i] == out[i]);
                }
                assert(o2[i - 1] == out[i - 1]);
            }
        }
    }
}

proof fn lemma_strip_leading_shape(s: Seq<char>)
    requires
        snake_chars(s),
    ensures
        snake_chars(strip_leading_underscores(s)),
        strip_leading_underscores(s).len() > 0 ==> strip_leading_underscores(s)[0] != '_',
        strip_leading_underscores(s).len() > 0 ==> strip_leading_underscores(s).last() == s.last(),
    decreases s.len(),
{
    if s.len() > 0 && s[0] == '_' {
        let t = s.drop_first();
        assert forall|i: int| 0 <= i < t.len() implies ('a' <= #[trigger] t[i] <= 'z') || ('0'
            <= t[i] <= '9') || t[i] == '_' by {
            assert(t[i] == s[i + 1]);
        }
        assert forall|i: int| 0 < i < t.len() && #[trigger] t[i] == '_' implies t[i - 1] != '_' by {
            assert(t[i] == s[i + 1]);
            assert(t[i - 1] == s[i]);
        }
        lemma_strip_leading_shape(t);
    }
}

proof fn lemma_strip_trailing_shape(s: Seq<char>)
    requires
        snake_chars(s),
    ensures
        snake_chars(strip_trailing_underscores(s)),
        strip_trailing_underscores(s).len() > 0 ==> strip_trailing_underscores(s).last() != '_',
        strip_trailing_underscores(s).len() > 0 ==> strip_trailing_underscores(s)[0] == s[0],
    decreases s.len(),
{
    if s.len() > 0 && s.last() == '_' {
        let t = s.drop_last();
        assert forall|i: int| 0 <= i < t.len() implies ('a' <= #[trigger] t[i] <= 'z') || ('0'
            <= t[i] <= '9') || t[i] == '_' by {
            assert(t[i] == s[i]);
        }
        assert forall|i: int| 0 < i < t.len() && #[trigger] t[i] == '_' implies t[i - 1] != '_' by {
            assert(t[i] == s[i]);
            assert(t[i - 1] == s[i - 1]);
        }
        lemma_strip_trailing_shape(t);
    }
}

/// Canonicalising a canonical category changes nothing: every name that
/// `canonicalize_task_category` returns comes back unchanged.
pub proof fn lemma_canonical_category_idempotent(raw: Seq<char>)
    requires
        canonical_category_spec(raw) is Some,
    ensures
        canonical_category_spec(canonical_category_spec(raw)->0) == canonical_category_spec(raw),
{
    let t = trim(raw);
    let out = collapse_state(t).0;
    lemma_collapse_shape(t);
    lemma_strip_leading_shape(out);
    let l = strip_leading_underscores(out);
    lemma_strip_trailing_shape(l);
    let n = trim_underscores(out);
    assert(n.len() > 0);
    assert(snake_shaped(n));
    let c = category_alias(n);
    if is_known_category(c) {
        lemma_known_categories_canonical(c);
    } else {
        reveal_strlit("debugging");
        reveal_strlit("refactoring");
        reveal_strlit("code_generation");
        reveal_strlit("planning");
        reveal_strlit("operations");
        reveal_strlit("qa");
        reveal_strlit("general");
        reveal_strlit("debug");
        reveal_strlit("bugfix");
        reveal_strlit("bug_fix");
        reveal_strlit("refactor");
        reveal_strlit("codegen");
        reveal_strlit("implementation");
        reveal_strlit("implementing");
        reveal_strlit("plan");
        reveal_strlit("ops");
        reveal_strlit("operational");
        reveal_strlit("q_a");
        reveal_strlit("question");
        reveal_strlit("question_answer");
        reveal_strlit("question_answering");
        reveal_strlit("misc");
        reveal_strlit("miscellaneous");
        reveal_strlit("debug_");
        reveal_strlit("debugging_");
        if starts_with(n, "debug_"@) {
            assert(n[5] == n.subrange(0, 6)[5]);
            assert(n[5] == '_');
            assert(n.len() > 6);
            assert(n[6] != '_');
            let rest = n.skip(6);
            assert(c == "debugging_"@ + rest);
            assert forall|i: int| 0 <= i < c.len() implies ('a' <= #[trigger] c[i] <= 'z') || (
            '0' <= c[i] <= '9') || c[i] == '_' by {
                if i >= 10 {
                    assert(c[i] == n[i - 4]);
                }
            }
            assert forall|i: int| 0 < i < c.len() && #[trigger] c[i] == '_' implies c[i - 1]
                != '_' by {
                if i > 10 {
                    assert(c[i] == n[i - 4]);
                    assert(c[i - 1] == n[i - 5]);
                } else if i == 10 {
                    assert(c[i] == n[6]);
                }
            }
            assert(c.last() == n.last());
            assert(snake_shaped(c));
            lemma_snake_canonical(c);
            if starts_with(c, "debug_"@) {
                assert(c[5] == c.subrange(0, 6)[5]);
            }
            assert(c[0] == 'd');
            assert(category_alias(c) == c);
        } else {
            assert(c == n);
            lemma_snake_canonical(n);
        }
    }
}

/// Whatever the prompt, the inferred category is one of the seven names.
pub proof fn lemma_inferred_category_is_known(prompt: Seq<char>)
    ensures
        is_known_category(infer_category_spec(prompt)),
{
    let k = keyword_category(lower_all(prompt));
    assert(is_known_category(k));
    lemma_known_categories_canonical(k);
}

/// Files a prompt under a task category by its (ASCII-lower-cased) keywords.
pub fn infer_task_category(prompt: &str) -> (r: String)
    ensures
        r@ == infer_category_spec(prompt@),
{
    let normalized = lower_chars(&chars_of(prompt));
    let category = keyword_category_exec(&normalized);
    match canonicalize_task_category(category) {
        Some(c) => c,
        None => String::from_str("general"),
    }
}


// ---------------------------------------------------------------------------
// Runtime settings
// ---------------------------------------------------------------------------

/// The integer and boolean settings of the live RL runtime.
#[derive(Debug, Clone)]
pub struct LiveRlSettings {
    pub enabled: bool,
    pub store_path: String,
    pub update_interval_rollouts: usize,
    pub max_rollouts_per_update: usize,
    pub max_failure_streak: usize,
    pub apo_enabled: bool,
    pub apo_min_samples: usize,
    pub apo_max_samples: usize,
}

/// A boolean setting: `default` when absent, else one of the accepted words.
pub open spec fn bool_setting_spec(raw: Option<Seq<char>>, default: bool, key: Seq<char>) -> Result<
    bool,
    Seq<char>,
> {
    match raw {
        None => Ok(default),
        Some(r) => match parse_bool_spec(r) {
            Some(b) => Ok(b),
            None => Err(key + " must be one of 1,true,yes,on,0,false,no,off"@),
        },
    }
}

fn lookup_pair(pairs: &Vec<(String, String)>, name: &str) -> (r: Option<String>)
    ensures
        opt_string_view(r) == process_lookup(pairs@, name@),
{
    let nc = chars_of(name);
    assert(pairs@.skip(0) =~= pairs@);
    let mut i: usize = 0;
    while i < pairs.len()
        invariant
            i <= pairs.len(),
            nc@ == name@,
            process_lookup(pairs@.skip(i as int), name@) == process_lookup(pairs@, name@),
        decreases pairs.len() - i,
    {
        let ghost rest = pairs@.skip(i as int);
        assert(rest[0] == pairs@[i as int]);
        assert(rest.drop_first() =~= pairs@.skip(i + 1));
        if chars_eq(&chars_of(pairs[i].0.as_str()), &nc) {
            return Some(pairs[i].1.clone());
        }
        i += 1;
    }
    assert(pairs@.skip(pairs.len() as int) =~= Seq::<(String, String)>::empty());
    None
}

fn bool_setting(env: &Vec<(String, String)>, key: &str, default: bool) -> (r: Result<bool, String>)
    ensures
        match (r, bool_setting_spec(process_lookup(env@, key@), default, key@)) {
            (Ok(a), Ok(b)) => a == b,
            (Err(e), Err(f)) => e@ == f,
            _ => false,
        },
{
    match lookup_pair(env, key) {
        None => Ok(default),
        Some(raw) => match parse_bool_env(raw.as_str()) {
            Some(b) => Ok(b),
            None => {
                let mut m = chars_of(key);
                append_str(&mut m, " must be one of 1,true,yes,on,0,false,no,off");
                Err(string_of(&m))
            },
        },
    }
}

fn usize_setting(env: &Vec<(String, String)>, key: &str, default: usize) -> (r: Result<usize, String>)
    ensures
        result_view(r) == positive_usize_spec(process_lookup(env@, key@), default, key@),
{
    match lookup_pair(env, key) {
        None => parse_positive_usize_env(None, default, key),
        Some(raw) => parse_positive_usize_env(Some(raw.as_str()), default, key),
    }
}

/// The settings the environment map asks for, checked in order: enabled flag,
/// store path, update interval, rollouts per update, failure streak, APO
/// flag, APO sample bounds, and that the minimum is not above the maximum.
pub open spec fn live_rl_settings_spec(env: Seq<(String, String)>, default_store_path: Seq<char>) -> Result<
    (bool, Seq<char>, usize, usize, usize, bool, usize, usize),
    Seq<char>,
> {
    let look = |k: Seq<char>| process_lookup(env, k);
    match bool_setting_spec(look(LIVE_RL_ENABLED_ENV@), false, LIVE_RL_ENABLED_ENV@) {
        Err(e) => Err(e),
        Ok(enabled) => {
            let store_path = match look(LIVE_RL_STORE_PATH_ENV@) {
                Some(v) => if trim(v).len() > 0 { trim(v) } else { default_store_path },
                None => default_store_path,
            };
            match positive_usize_spec(look(LIVE_RL_UPDATE_INTERVAL_ENV@), 8, LIVE_RL_UPDATE_INTERVAL_ENV@) {
                Err(e) => Err(e),
                Ok(interval) => match positive_usize_spec(
                    look(LIVE_RL_MAX_ROLLOUTS_ENV@),
                    64,
                    LIVE_RL_MAX_ROLLOUTS_ENV@,
                ) {
                    Err(e) => Err(e),
                    Ok(max_rollouts) => match positive_usize_spec(
                        look(LIVE_RL_MAX_FAILURE_STREAK_ENV@),
                        3,
                        LIVE_RL_MAX_FAILURE_STREAK_ENV@,
                    ) {
                        Err(e) => Err(e),
                        Ok(streak) => match bool_setting_spec(
                            look(LIVE_RL_APO_ENABLED_ENV@),
                            true,
                            LIVE_RL_APO_ENABLED_ENV@,
                        ) {
                            Err(e) => Err(e),
                            Ok(apo) => match positive_usize_spec(
                                look(LIVE_RL_APO_MIN_SAMPLES_ENV@),
                                4,
                                LIVE_RL_APO_MIN_SAMPLES_ENV@,
                            ) {
                                Err(e) => Err(e),
                                Ok(min) => match positive_usize_spec(
                                    look(LIVE_RL_APO_MAX_SAMPLES_ENV@),
                                    32,
                                    LIVE_RL_APO_MAX_SAMPLES_ENV@,
                                ) {
                                    Err(e) => Err(e),
                                    Ok(max) => if min > max {
                                        Err(
                                            LIVE_RL_APO_MIN_SAMPLES_ENV@ + " cannot be greater than "@
                                                + LIVE_RL_APO_MAX_SAMPLES_ENV@,
                                        )
                                    } else {
                                        Ok((enabled, store_path, interval, max_rollouts, streak, apo, min, max))
                                    },
                                },
                            },
                        },
                    },
                },
            }
        },
    }
}

pub open spec fn settings_view(s: LiveRlSettings) -> (bool, Seq<char>, usize, usize, usize, bool, usize, usize) {
    (
        s.enabled,
        s.store_path@,
        s.update_interval_rollouts,
        s.max_rollouts_per_update,
        s.max_failure_streak,
        s.apo_enabled,
        s.apo_min_samples,
        s.apo_max_samples,
    )
}

/// The live RL settings from the environment map; the significance level,
/// a floating-point value, is read by the caller after these.
pub fn live_rl_settings_from_env(env: &Vec<(String, String)>, default_store_path: &str) -> (r: Result<
    LiveRlSettings,
    String,
>)
    ensures
        match (r, live_rl_settings_spec(env@, default_store_path@)) {
            (Ok(s), Ok(v)) => settings_view(s) == v,
            (Err(e), Err(f)) => e@ == f,
            _ => false,
        },
{
    let enabled = match bool_setting(env, LIVE_RL_ENABLED_ENV, false) {
        Ok(b) => b,
        Err(e) => return Err(e),
    };
    let store_path = match lookup_pair(env, LIVE_RL_STORE_PATH_ENV) {
        Some(v) => {
            let t = trim_chars(&chars_of(v.as_str()));
            if t.len() > 0 {
                string_of(&t)
            } else {
                String::from_str(default_store_path)
            }
        },
        None => String::from_str(default_store_path),
    };
    let interval = match usize_setting(env, LIVE_RL_UPDATE_INTERVAL_ENV, 8) {
        Ok(v) => v,
        Err(e) => return Err(e),
    };
    let max_rollouts = match usize_setting(env, LIVE_RL_MAX_ROLLOUTS_ENV, 64) {
        Ok(v) => v,
        Err(e) => return Err(e),
    };
    let streak = match usize_setting(env, LIVE_RL_MAX_FAILURE_STREAK_ENV, 3) {
        Ok(v) => v,
        Err(e) => return Err(e),
    };
    let apo = match bool_setting(env, LIVE_RL_APO_ENABLED_ENV, true) {
        Ok(b) => b,
        Err(e) => return Err(e),
    };
    let min = match usize_setting(env, LIVE_RL_APO_MIN_SAMPLES_ENV, 4) {
        Ok(v) => v,
        Err(e) => return Err(e),
    };
    let max = match usize_setting(env, LIVE_RL_APO_MAX_SAMPLES_ENV, 32) {
        Ok(v) => v,
        Err(e) => return Err(e),
    };
    if min > max {
        let mut m = chars_of(LIVE_RL_APO_MIN_SAMPLES_ENV);
        append_str(&mut m, " cannot be greater than ");
        append_str(&mut m, LIVE_RL_APO_MAX_SAMPLES_ENV);
        return Err(string_of(&m));
    }
    Ok(
        LiveRlSettings {
            enabled,
            store_path,
            update_interval_rollouts: interval,
            max_rollouts_per_update: max_rollouts,
            max_failure_streak: streak,
            apo_enabled: apo,
            apo_min_samples: min,
            apo_max_samples: max,
        },
    )
}


// ---------------------------------------------------------------------------
// Runtime state machine
// ---------------------------------------------------------------------------

pub const LIVE_ROLLOUT_PREFIX: &'static str = "live-rl-rollout";

/// Whether live rollouts are being collected.
#[derive(Debug, Clone, Copy, PartialEq, Eq, Structural)]
pub enum LiveRlRuntimeGate {
    Pass,
    Hold,
}

/// The run of the agent currently being recorded.
#[derive(Debug, Clone)]
pub struct LiveRlActiveRun {
    pub rollout_id: String,
    pub attempt_id: String,
    pub prompt: Option<String>,
    pub assistant_reply: Option<String>,
    pub turns: u32,
    pub tool_errors: u32,
    pub safety_blocked: bool,
}

/// The runtime's counters, gate and current run.
#[derive(Debug, Clone)]
pub struct LiveRlRuntimeState {
    pub gate: LiveRlRuntimeGate,
    pub next_rollout_sequence: u64,
    pub completed_rollouts: usize,
    pub consecutive_failures: usize,
    pub last_error: Option<String>,
    pub active_run: Option<LiveRlActiveRun>,
}

/// Who wrote a message.
#[derive(Debug, Clone, Copy, PartialEq, Eq, Structural)]
pub enum MessageRole {
    System,
    User,
    Assistant,
    Tool,
}

/// `s` left-padded with `0` to at least `width` characters.
pub open spec fn zero_pad(s: Seq<char>, width: nat) -> Seq<char> {
    if s.len() >= width {
        s
    } else {
        Seq::new((width - s.len()) as nat, |i: int| '0') + s
    }
}

/// `live-rl-rollout-<sequence, ten digits at least>`.
pub open spec fn rollout_id_spec(sequence: u64) -> Seq<char> {
    LIVE_ROLLOUT_PREFIX@ + "-"@ + zero_pad(decimal(sequence as nat), 10)
}

pub open spec fn sat_inc_u64(x: u64) -> u64 {
    if x == u64::MAX { x } else { (x + 1) as u64 }
}

pub open spec fn sat_inc_usize(x: usize) -> usize {
    if x == usize::MAX { x } else { (x + 1) as usize }
}

pub open spec fn sat_inc_u32(x: u32) -> u32 {
    if x == u32::MAX { x } else { (x + 1) as u32 }
}

fn zero_pad_exec(s: Vec<char>, width: usize) -> (r: Vec<char>)
    ensures
        r@ == zero_pad(s@, width as nat),
{
    if s.len() >= width {
        return s;
    }
    let mut out: Vec<char> = Vec::new();
    let n = width - s.len();
    let mut i: usize = 0;
    while i < n
        invariant
            i <= n,
            out@ == Seq::new(i as nat, |k: int| '0'),
        decreases n - i,
    {
        out.push('0');
        assert(out@ =~= Seq::new((i + 1) as nat, |k: int| '0'));
        i += 1;
    }
    append_chars(&mut out, &s);
    out
}

impl LiveRlRuntimeState {
    /// A runtime that collects rollouts and has seen nothing yet.
    pub fn new() -> (s: Self)
        ensures
            s.gate == LiveRlRuntimeGate::Pass,
            s.next_rollout_sequence == 0,
            s.completed_rollouts == 0,
            s.consecutive_failures == 0,
            s.last_error is None,
            s.active_run is None,
    {
        LiveRlRuntimeState {
            gate: LiveRlRuntimeGate::Pass,
            next_rollout_sequence: 0,
            completed_rollouts: 0,
            consecutive_failures: 0,
            last_error: None,
            active_run: None,
        }
    }

    /// The agent started a run. Any unfinished run is returned first, for the
    /// caller to cancel. While updates are enabled, a fresh rollout begins under
    /// the next sequence number and its id is returned as well.
    pub fn start_run(&mut self) -> (r: (Option<LiveRlActiveRun>, Option<String>))
        ensures
            r.0 == old(self).active_run,
            final(self).gate == old(self).gate,
            final(self).completed_rollouts == old(self).completed_rollouts,
            final(self).consecutive_failures == old(self).consecutive_failures,
            final(self).last_error == old(self).last_error,
            old(self).gate == LiveRlRuntimeGate::Hold ==> {
                &&& r.1 is None
                &&& final(self).active_run is None
                &&& final(self).next_rollout_sequence == old(self).next_rollout_sequence
            },
            old(self).gate == LiveRlRuntimeGate::Pass ==> {
                let seq = sat_inc_u64(old(self).next_rollout_sequence);
                &&& final(self).next_rollout_sequence == seq
                &&& r.1 matches Some(id) && id@ == rollout_id_spec(seq)
                &&& final(self).active_run matches Some(run) && run.rollout_id@ == rollout_id_spec(
                    seq,
                ) && run.attempt_id@ == rollout_id_spec(seq) + ":attempt-live"@
                    && run.prompt is None && run.assistant_reply is None && run.turns == 0
                    && run.tool_errors == 0 && !run.safety_blocked
            },
    {
        let stale = self.active_run.take();
        if self.gate == LiveRlRuntimeGate::Hold {
            return (stale, None);
        }
        self.next_rollout_sequence = self.next_rollout_sequence.saturating_add(1);
        let mut id = chars_of(LIVE_ROLLOUT_PREFIX);
        append_str(&mut id, "-");
        append_chars(&mut id, &zero_pad_exec(decimal_chars(self.next_rollout_sequence), 10));
        let mut attempt = id.clone();
        append_str(&mut attempt, ":attempt-live");
        let rollout_id = string_of(&id);
        self.active_run = Some(
            LiveRlActiveRun {
                rollout_id: rollout_id.clone(),
                attempt_id: string_of(&attempt),
                prompt: None,
                assistant_reply: None,
                turns: 0,
                tool_errors: 0,
                safety_blocked: false,
            },
        );
        (stale, Some(rollout_id))
    }

    /// Drops the current run if it is `rollout_id` (its rollout could not be created).
    pub fn clear_active_run(&mut self, rollout_id: &str)
        ensures
            final(self).gate == old(self).gate,
            final(self).next_rollout_sequence == old(self).next_rollout_sequence,
            final(self).completed_rollouts == old(self).completed_rollouts,
            final(self).consecutive_failures == old(self).consecutive_failures,
            final(self).last_error == old(self).last_error,
            match old(self).active_run {
                Some(run) => if run.rollout_id@ == rollout_id@ {
                    final(self).active_run is None
                } else {
                    final(self).active_run == old(self).active_run
                },
                None => final(self).active_run is None,
            },
    {
        let matches = match &self.active_run {
            Some(run) => crate::text::str_eq(run.rollout_id.as_str(), rollout_id),
            None => false,
        };
        if matches {
            self.active_run = None;
        }
    }

    /// Hands over the current run when the agent's run ended.
    pub fn take_active_run(&mut self) -> (r: Option<LiveRlActiveRun>)
        ensures
            r == old(self).active_run,
            final(self).active_run is None,
            final(self).gate == old(self).gate,
            final(self).next_rollout_sequence == old(self).next_rollout_sequence,
            final(self).completed_rollouts == old(self).completed_rollouts,
            final(self).consecutive_failures == old(self).consecutive_failures,
            final(self).last_error == old(self).last_error,
    {
        self.active_run.take()
    }

    /// A failure: the streak grows, the message is kept, and updates pause
    /// once the streak reaches `max_failure_streak`.
    pub fn register_failure(&mut self, message: String, max_failure_streak: usize)
        ensures
            final(self).consecutive_failures == sat_inc_usize(old(self).consecutive_failures),
            final(self).last_error == Some(message),
            final(self).gate == if final(self).consecutive_failures >= max_failure_streak {
                LiveRlRuntimeGate::Hold
            } else {
                old(self).gate
            },
            old(self).gate == LiveRlRuntimeGate::Hold ==> final(self).gate == LiveRlRuntimeGate::Hold,
            final(self).next_rollout_sequence == old(self).next_rollout_sequence,
            final(self).completed_rollouts == old(self).completed_rollouts,
            final(self).active_run == old(self).active_run,
    {
        self.consecutive_failures = self.consecutive_failures.saturating_add(1);
        self.last_error = Some(message);
        if self.consecutive_failures >= max_failure_streak {
            self.gate = LiveRlRuntimeGate::Hold;
        }
    }

    /// A run was recorded: the count grows, the failure streak and last error
    /// clear, and the result says whether an optimizer update is due (every
    /// `update_interval_rollouts` completions).
    pub fn record_success(&mut self, update_interval_rollouts: usize) -> (due: bool)
        requires
            update_interval_rollouts > 0,
        ensures
            final(self).completed_rollouts == sat_inc_usize(old(self).completed_rollouts),
            final(self).consecutive_failures == 0,
            final(self).last_error is None,
            due == (final(self).completed_rollouts % update_interval_rollouts == 0),
            final(self).gate == old(self).gate,
            final(self).next_rollout_sequence == old(self).next_rollout_sequence,
            final(self).active_run == old(self).active_run,
    {
        self.completed_rollouts = self.completed_rollouts.saturating_add(1);
        self.consecutive_failures = 0;
        self.last_error = None;
        self.completed_rollouts % update_interval_rollouts == 0
    }

    /// A message of the current run: the first non-blank user message is its
    /// prompt, the latest non-blank assistant message its reply (both trimmed).
    pub fn record_message(&mut self, role: MessageRole, text: &str)
        ensures
            final(self).gate == old(self).gate,
            final(self).next_rollout_sequence == old(self).next_rollout_sequence,
            final(self).completed_rollouts == old(self).completed_rollouts,
            final(self).consecutive_failures == old(self).consecutive_failures,
            final(self).last_error == old(self).last_error,
            match old(self).active_run {
                None => final(self).active_run is None,
                Some(run) => final(self).active_run matches Some(new_run) && {
                    let t = trim(text@);
                    &&& new_run.rollout_id == run.rollout_id
                    &&& new_run.attempt_id == run.attempt_id
                    &&& new_run.turns == run.turns
                    &&& new_run.tool_errors == run.tool_errors
                    &&& new_run.safety_blocked == run.safety_blocked
                    &&& opt_string_view(new_run.prompt) == if t.len() > 0 && role
                        == MessageRole::User && run.prompt is None {
                        Some(t)
                    } else {
                        opt_string_view(run.prompt)
                    }
                    &&& opt_string_view(new_run.assistant_reply) == if t.len() > 0 && role
                        == MessageRole::Assistant {
                        Some(t)
                    } else {
                        opt_string_view(run.assistant_reply)
                    }
                },
            },
    {
        let t = trim_chars(&chars_of(text));
        if t.len() == 0 {
            return;
        }
        match self.active_run.take() {
            None => {},
            Some(mut run) => {
                match role {
                    MessageRole::User => {
                        if run.prompt.is_none() {
                            run.prompt = Some(string_of(&t));
                        }
                    },
                    MessageRole::Assistant => {
                        run.assistant_reply = Some(string_of(&t));
                    },
                    _ => {},
                }
                self.active_run = Some(run);
            },
        }
    }

    /// A tool call of the current run failed.
    pub fn record_tool_error(&mut self)
        ensures
            final(self).gate == old(self).gate,
            final(self).next_rollout_sequence == old(self).next_rollout_sequence,
            final(self).completed_rollouts == old(self).completed_rollouts,
            final(self).consecutive_failures == old(self).consecutive_failures,
            match old(self).active_run {
                None => final(self).active_run is None,
                Some(run) => final(self).active_run == Some(
                    LiveRlActiveRun { tool_errors: sat_inc_u32(run.tool_errors), ..run },
                ),
            },
    {
        match self.active_run.take() {
            None => {},
            Some(mut run) => {
                run.tool_errors = run.tool_errors.saturating_add(1);
                self.active_run = Some(run);
            },
        }
    }

    /// A turn of the current run ended.
    pub fn record_turn_end(&mut self)
        ensures
            final(self).gate == old(self).gate,
            final(self).next_rollout_sequence == old(self).next_rollout_sequence,
            final(self).completed_rollouts == old(self).completed_rollouts,
            final(self).consecutive_failures == old(self).consecutive_failures,
            match old(self).active_run {
                None => final(self).active_run is None,
                Some(run) => final(self).active_run == Some(
                    LiveRlActiveRun { turns: sat_inc_u32(run.turns), ..run },
                ),
            },
    {
        match self.active_run.take() {
            None => {},
            Some(mut run) => {
                run.turns = run.turns.saturating_add(1);
                self.active_run = Some(run);
            },
        }
    }

    /// The safety policy blocked something in the current run.
    pub fn record_safety_block(&mut self)
        ensures
            final(self).gate == old(self).gate,
            final(self).next_rollout_sequence == old(self).next_rollout_sequence,
            match old(self).active_run {
                None => final(self).active_run is None,
                Some(run) => final(self).active_run == Some(
                    LiveRlActiveRun { safety_blocked: true, ..run },
                ),
            },
    {
        match self.active_run.take() {
            None => {},
            Some(mut run) => {
                run.safety_blocked = true;
                self.active_run = Some(run);
            },
        }
    }
}


// ---------------------------------------------------------------------------
// Rollouts used by an update
// ---------------------------------------------------------------------------

pub open spec fn is_live_rollout_id(id: Seq<char>) -> bool {
    starts_with(id, LIVE_ROLLOUT_PREFIX@)
}

/// The live rollout ids among `ids`, in order.
pub open spec fn live_ids(ids: Seq<Seq<char>>) -> Seq<Seq<char>>
    decreases ids.len(),
{
    if ids.len() == 0 {
        seq![]
    } else {
        let p = live_ids(ids.drop_last());
        if is_live_rollout_id(ids.last()) {
            p.push(ids.last())
        } else {
            p
        }
    }
}

/// Position `i` of `f` sorts before position `j`: smaller id, or the same id
/// earlier (a stable sort).
pub open spec fn id_before(f: Seq<Seq<char>>, i: int, j: int) -> bool {
    crate::multi_channel_runtime::chars_lt(f[i], f[j]) || (f[i] == f[j] && i < j)
}

/// `order` lists every position of `f` once, sorted by `id_before`.
pub open spec fn sorts_ids(f: Seq<Seq<char>>, order: Seq<usize>) -> bool {
    &&& order.len() == f.len()
    &&& forall|k: int| 0 <= k < order.len() ==> order[k] < f.len()
    &&& forall|i: usize| i < f.len() ==> order.contains(i)
    &&& forall|a: int, b: int|
        #![trigger order[a], order[b]]
        0 <= a < b < order.len() ==> id_before(f, order[a] as int, order[b] as int)
}

/// The ids of the live rollouts, sorted, keeping the last `limit`.
pub fn select_live_rollout_ids(rollout_ids: &Vec<String>, limit: usize) -> (r: Vec<String>)
    ensures
        ({
            let f = live_ids(string_views(rollout_ids@));
            let m = if f.len() < limit { f.len() } else { limit as nat };
            exists|order: Seq<usize>|
                #![trigger sorts_ids(f, order)]
                sorts_ids(f, order) && r@.len() == m && forall|k: int|
                    0 <= k < m ==> (#[trigger] r@[k])@ == f[order[f.len() - m + k] as int]
        }),
{
    let ghost f = live_ids(string_views(rollout_ids@));
    let mut entries: Vec<crate::multi_channel_runtime::QueueEntry> = Vec::new();
    let mut i: usize = 0;
    while i < rollout_ids.len()
        invariant
            i <= rollout_ids.len(),
            f == live_ids(string_views(rollout_ids@)),
            entries@.len() == live_ids(string_views(rollout_ids@).take(i as int)).len(),
            forall|k: int|
                0 <= k < entries@.len() ==> (#[trigger] entries@[k]).timestamp_ms == 0
                    && entries@[k].event_key@ == live_ids(string_views(rollout_ids@).take(i as int))[k],
        decreases rollout_ids.len() - i,
    {
        let ghost sv = string_views(rollout_ids@);
        assert(sv.take(i + 1).drop_last() =~= sv.take(i as int));
        assert(sv.take(i + 1).last() == rollout_ids@[i as int]@);
        let id = chars_of(rollout_ids[i].as_str());
        if starts_with_str(&id, LIVE_ROLLOUT_PREFIX) {
            entries.push(
                crate::multi_channel_runtime::QueueEntry {
                    timestamp_ms: 0,
                    event_key: rollout_ids[i].clone(),
                },
            );
        }
        i += 1;
    }
    assert(string_views(rollout_ids@).take(rollout_ids.len() as int) =~= string_views(rollout_ids@));
    let n = entries.len();
    let order = crate::multi_channel_runtime::order_event_queue(&entries, n);
    proof {
        assert forall|a: int, b: int|
            #![trigger order@[a], order@[b]]
            0 <= a < b < order@.len() implies id_before(f, order@[a] as int, order@[b] as int) by {
            assert(crate::multi_channel_runtime::queue_before(
                entries@,
                order@[a] as int,
                order@[b] as int,
            ));
        }
        assert(sorts_ids(f, order@));
    }
    let m: usize = if n < limit { n } else { limit };
    let mut out: Vec<String> = Vec::new();
    let mut k: usize = 0;
    while k < m
        invariant
            k <= m <= n,
            n == entries@.len(),
            n == f.len(),
            order@.len() == n,
            forall|j: int| 0 <= j < n ==> order@[j] < n,
            forall|j: int| 0 <= j < n ==> (#[trigger] entries@[j]).event_key@ == f[j],
            out@.len() == k,
            forall|j: int| 0 <= j < k ==> (#[trigger] out@[j])@ == f[order@[n - m + j] as int],
        decreases m - k,
    {
        let idx = order[n - m + k];
        out.push(entries[idx].event_key.clone());
        k += 1;
    }
    out
}

// ---------------------------------------------------------------------------
// Curriculum sample selection
// ---------------------------------------------------------------------------

/// Picks in round `r` from a category: one in the first round, the
/// category's burst (at least one) afterwards.
pub open spec fn round_amount(r: nat, burst: usize) -> nat {
    if r == 0 || burst == 0 {
        1
    } else {
        burst as nat
    }
}

/// How many samples of a category of `size` the first `r` rounds take.
pub open spec fn taken_through(size: nat, burst: usize, r: nat) -> nat
    decreases r,
{
    if r == 0 {
        0
    } else {
        let t = taken_through(size, burst, (r - 1) as nat) + round_amount((r - 1) as nat, burst);
        if t <= size {
            t
        } else {
            size
        }
    }
}

/// The picks of round `r` from category `g`, newest sample first: a pick is
/// the category's rank and the sample's position in its group.
pub open spec fn round_segment(g: nat, size: nat, burst: usize, r: nat) -> Seq<(usize, usize)> {
    let lo = taken_through(size, burst, r);
    let hi = taken_through(size, burst, r + 1);
    Seq::new((hi - lo) as nat, |k: int| (g as usize, (size - 1 - lo - k) as usize))
}

/// Round `r` over the first `n` categories, in rank order.
pub open spec fn round_picks(sizes: Seq<usize>, bursts: Seq<usize>, r: nat, n: nat) -> Seq<
    (usize, usize),
>
    decreases n,
{
    if n == 0 {
        seq![]
    } else {
        round_picks(sizes, bursts, r, (n - 1) as nat) + round_segment(
            (n - 1) as nat,
            sizes[n - 1] as nat,
            bursts[n - 1],
            r,
        )
    }
}

/// The picks of the first `rounds` rounds.
pub open spec fn curriculum_schedule(sizes: Seq<usize>, bursts: Seq<usize>, rounds: nat) -> Seq<
    (usize, usize),
>
    decreases rounds,
{
    if rounds == 0 {
        seq![]
    } else {
        curriculum_schedule(sizes, bursts, (rounds - 1) as nat) + round_picks(
            sizes,
            bursts,
            (rounds - 1) as nat,
            sizes.len(),
        )
    }
}

/// Every sample, category by category in rank order, each group in order.
pub open spec fn in_group_order(sizes: Seq<usize>) -> Seq<(usize, usize)>
    decreases sizes.len(),
{
    if sizes.len() == 0 {
        seq![]
    } else {
        in_group_order(sizes.drop_last()) + Seq::new(
            sizes.last() as nat,
            |k: int| ((sizes.len() - 1) as usize, k as usize),
        )
    }
}

pub open spec fn seq_sum(s: Seq<usize>) -> nat
    decreases s.len(),
{
    if s.len() == 0 {
        0
    } else {
        seq_sum(s.drop_last()) + (s.last() as nat)
    }
}

proof fn lemma_seq_sum_update(s: Seq<usize>, g: int, v: usize)
    requires
        0 <= g < s.len(),
    ensures
        seq_sum(s.update(g, v)) + s[g] == seq_sum(s) + v,
    decreases s.len(),
{
    let u = s.update(g, v);
    if g == s.len() - 1 {
        assert(u.drop_last() =~= s.drop_last());
    } else {
        assert(u.drop_last() =~= s.drop_last().update(g, v));
        lemma_seq_sum_update(s.drop_last(), g, v);
    }
}

proof fn lemma_seq_sum_prefix(s: Seq<usize>, i: int)
    requires
        0 <= i <= s.len(),
    ensures
        seq_sum(s.take(i)) <= seq_sum(s),
    decreases s.len(),
{
    if i < s.len() {
        assert(s.drop_last().take(i) =~= s.take(i));
        lemma_seq_sum_prefix(s.drop_last(), i);
    } else {
        assert(s.take(i) =~= s);
    }
}

proof fn lemma_seq_sum_zero(s: Seq<usize>)
    requires
        forall|h: int| 0 <= h < s.len() ==> s[h] == 0,
    ensures
        seq_sum(s) == 0,
    decreases s.len(),
{
    if s.len() > 0 {
        lemma_seq_sum_zero(s.drop_last());
    }
}

/// Pops up to `amount` samples of category `g` (fewer when the category runs
/// out or `max` picks are reached), newest first.
fn pop_burst(
    remaining: &mut Vec<usize>,
    selected: &mut Vec<(usize, usize)>,
    g: usize,
    amount: usize,
    max: usize,
) -> (popped: usize)
    requires
        g < old(remaining).len(),
        old(selected).len() <= max,
    ensures
        popped <= amount,
        popped <= old(remaining)@[g as int],
        old(selected).len() + popped <= max,
        popped == amount || popped == old(remaining)@[g as int] || old(selected).len() + popped
            == max,
        final(remaining)@ == old(remaining)@.update(g as int, (old(remaining)@[g as int] - popped) as usize),
        final(selected)@ == old(selected)@ + Seq::new(
            popped as nat,
            |k: int| (g, (old(remaining)@[g as int] - 1 - k) as usize),
        ),
{
    let ghost rem0 = remaining@;
    let ghost sel0 = selected@;
    let mut j: usize = 0;
    while j < amount
        invariant
            g < remaining.len(),
            remaining.len() == rem0.len(),
            j <= amount,
            j <= rem0[g as int],
            sel0.len() + j <= max,
            remaining@ == rem0.update(g as int, (rem0[g as int] - j) as usize),
            selected@ == sel0 + Seq::new(j as nat, |k: int| (g, (rem0[g as int] - 1 - k) as usize)),
        ensures
            j <= amount,
            j <= rem0[g as int],
            sel0.len() + j <= max,
            j == amount || j == rem0[g as int] || sel0.len() + j == max,
            remaining@ == rem0.update(g as int, (rem0[g as int] - j) as usize),
            selected@ == sel0 + Seq::new(j as nat, |k: int| (g, (rem0[g as int] - 1 - k) as usize)),
        decreases amount - j,
    {
        if selected.len() == max {
            break;
        }
        if remaining[g] == 0 {
            break;
        }
        let left = remaining[g] - 1;
        remaining.set(g, left);
        selected.push((g, left));
        j += 1;
        assert(selected@ =~= sel0 + Seq::new(
            j as nat,
            |k: int| (g, (rem0[g as int] - 1 - k) as usize),
        ));
        assert(remaining@ =~= rem0.update(g as int, (rem0[g as int] - j) as usize));
    }
    j
}

proof fn lemma_round_prefix(sizes: Seq<usize>, bursts: Seq<usize>, r: nat, a: nat, b: nat)
    requires
        a <= b <= sizes.len(),
    ensures
        round_picks(sizes, bursts, r, a).len() <= round_picks(sizes, bursts, r, b).len(),
        round_picks(sizes, bursts, r, b).take(round_picks(sizes, bursts, r, a).len() as int)
            == round_picks(sizes, bursts, r, a),
    decreases b,
{
    if a < b {
        lemma_round_prefix(sizes, bursts, r, a, (b - 1) as nat);
        let pa = round_picks(sizes, bursts, r, a);
        let pb1 = round_picks(sizes, bursts, r, (b - 1) as nat);
        let pb = round_picks(sizes, bursts, r, b);
        assert(pb.take(pb1.len() as int) =~= pb1);
        assert(pb.take(pa.len() as int) =~= pb1.take(pa.len() as int));
    } else {
        let pa = round_picks(sizes, bursts, r, a);
        assert(pa.take(pa.len() as int) =~= pa);
    }
}

proof fn lemma_segment_pops(
    sizes: Seq<usize>,
    bs: Seq<usize>,
    rnd: nat,
    g: nat,
    rem_g: usize,
    popped: nat,
)
    requires
        g < sizes.len(),
        rem_g == sizes[g as int] - taken_through(sizes[g as int] as nat, bs[g as int], rnd),
        popped <= rem_g,
        popped <= round_amount(rnd, bs[g as int]),
    ensures
        popped <= round_segment(g, sizes[g as int] as nat, bs[g as int], rnd).len(),
        Seq::new(popped, |k: int| (g as usize, (rem_g - 1 - k) as usize)) =~= round_segment(
            g,
            sizes[g as int] as nat,
            bs[g as int],
            rnd,
        ).take(popped as int),
        (popped == rem_g || popped == round_amount(rnd, bs[g as int])) ==> popped
            == round_segment(g, sizes[g as int] as nat, bs[g as int], rnd).len(),
{
}

proof fn lemma_capped_prefix(
    sizes: Seq<usize>,
    bs: Seq<usize>,
    rnd: nat,
    g: nat,
    sel: Seq<(usize, usize)>,
    popped: nat,
)
    requires
        g < sizes.len(),
        popped <= round_segment(g, sizes[g as int] as nat, bs[g as int], rnd).len(),
        sel == curriculum_schedule(sizes, bs, rnd) + round_picks(sizes, bs, rnd, g) + round_segment(
            g,
            sizes[g as int] as nat,
            bs[g as int],
            rnd,
        ).take(popped as int),
    ensures
        curriculum_schedule(sizes, bs, rnd + 1).len() >= sel.len(),
        sel =~= curriculum_schedule(sizes, bs, rnd + 1).take(sel.len() as int),
{
    let seg = round_segment(g, sizes[g as int] as nat, bs[g as int], rnd);
    let rp = round_picks(sizes, bs, rnd, g + 1);
    assert(rp =~= round_picks(sizes, bs, rnd, g) + seg);
    lemma_round_prefix(sizes, bs, rnd, g + 1, sizes.len());
    let sch = curriculum_schedule(sizes, bs, rnd);
    let full = curriculum_schedule(sizes, bs, rnd + 1);
    let rn = round_picks(sizes, bs, rnd, sizes.len());
    assert(full =~= sch + rn);
    assert forall|i: int| 0 <= i < sel.len() implies #[trigger] sel[i] == full[i] by {
        if i >= sch.len() {
            let ri = i - sch.len();
            assert(rn.take(rp.len() as int)[ri] == rp[ri]);
        }
    }
}

/// One round over all categories; `true` when any sample was picked.
fn run_round(
    remaining: &mut Vec<usize>,
    selected: &mut Vec<(usize, usize)>,
    bursts: &Vec<usize>,
    first: bool,
    max: usize,
    Ghost(sizes): Ghost<Seq<usize>>,
    Ghost(rnd): Ghost<nat>,
) -> (progressed: bool)
    requires
        old(remaining).len() == sizes.len(),
        bursts.len() == sizes.len(),
        first <==> rnd == 0,
        forall|h: int|
            0 <= h < sizes.len() ==> #[trigger] old(remaining)@[h] == sizes[h] - taken_through(
                sizes[h] as nat,
                bursts@[h],
                rnd,
            ),
        old(selected)@ == curriculum_schedule(sizes, bursts@, rnd),
        old(selected).len() < max,
    ensures
        final(remaining).len() == sizes.len(),
        final(selected).len() <= max,
        seq_sum(final(remaining)@) + final(selected).len() == seq_sum(old(remaining)@) + old(
            selected,
        ).len(),
        progressed ==> final(selected).len() > old(selected).len(),
        final(selected).len() == max ==> curriculum_schedule(sizes, bursts@, rnd + 1).len() >= max
            && final(selected)@ == curriculum_schedule(sizes, bursts@, rnd + 1).take(max as int),
        final(selected).len() < max ==> {
            &&& final(selected)@ == curriculum_schedule(sizes, bursts@, rnd + 1)
            &&& forall|h: int|
                0 <= h < sizes.len() ==> #[trigger] final(remaining)@[h] == sizes[h]
                    - taken_through(sizes[h] as nat, bursts@[h], rnd + 1)
            &&& !progressed ==> forall|h: int|
                0 <= h < sizes.len() ==> #[trigger] final(remaining)@[h] == 0
        },
{
    let ghost rem0 = remaining@;
    let ghost sel0 = selected@;
    let ghost bs = bursts@;
    let n = remaining.len();
    let mut progressed = false;
    let mut g: usize = 0;
    while g < n
        invariant_except_break
            selected.len() < max,
            selected@ == curriculum_schedule(sizes, bs, rnd) + round_picks(sizes, bs, rnd, g as nat),
            forall|h: int|
                0 <= h < g ==> #[trigger] remaining@[h] == sizes[h] - taken_through(
                    sizes[h] as nat,
                    bs[h],
                    rnd + 1,
                ),
            !progressed ==> forall|h: int| 0 <= h < g ==> #[trigger] remaining@[h] == 0,
            forall|h: int|
                g <= h < n ==> #[trigger] remaining@[h] == sizes[h] - taken_through(
                    sizes[h] as nat,
                    bs[h],
                    rnd,
                ),
        invariant
            n == sizes.len(),
            remaining.len() == n,
            bs == bursts@,
            bs.len() == n,
            g <= n,
            first <==> rnd == 0,
            selected.len() <= max,
            sel0 == curriculum_schedule(sizes, bs, rnd),
            seq_sum(remaining@) + selected.len() == seq_sum(rem0) + sel0.len(),
            progressed ==> selected.len() > sel0.len(),
        ensures
            remaining.len() == n,
            selected.len() <= max,
            seq_sum(remaining@) + selected.len() == seq_sum(rem0) + sel0.len(),
            progressed ==> selected.len() > sel0.len(),
            selected.len() == max ==> curriculum_schedule(sizes, bs, rnd + 1).len() >= max
                && selected@ == curriculum_schedule(sizes, bs, rnd + 1).take(max as int),
            selected.len() < max ==> {
                &&& selected@ == curriculum_schedule(sizes, bs, rnd) + round_picks(
                    sizes,
                    bs,
                    rnd,
                    n as nat,
                )
                &&& forall|h: int|
                    0 <= h < n ==> #[trigger] remaining@[h] == sizes[h] - taken_through(
                        sizes[h] as nat,
                        bs[h],
                        rnd + 1,
                    )
                &&& !progressed ==> forall|h: int| 0 <= h < n ==> #[trigger] remaining@[h] == 0
            },
        decreases n - g,
    {
        let amount: usize = if first || bursts[g] == 0 {
            1
        } else {
            bursts[g]
        };
        let ghost size = sizes[g as int] as nat;
        let ghost lo = taken_through(size, bs[g as int], rnd);
        let ghost hi = taken_through(size, bs[g as int], rnd + 1);
        assert(amount == round_amount(rnd, bs[g as int]));
        assert(remaining@[g as int] == size - lo);
        let ghost rem_before = remaining@;
        let ghost sel_before = selected@;
        let popped = pop_burst(remaining, selected, g, amount, max);
        proof {
            lemma_seq_sum_update(rem_before, g as int, (rem_before[g as int] - popped) as usize);
            lemma_segment_pops(sizes, bs, rnd, g as nat, rem_before[g as int], popped as nat);
            let seg = round_segment(g as nat, size, bs[g as int], rnd);
            assert(selected@ =~= sel_before + seg.take(popped as int));
            if selected.len() == max {
                lemma_capped_prefix(sizes, bs, rnd, g as nat, selected@, popped as nat);
            } else {
                assert(popped == seg.len());
                assert(seg.take(popped as int) =~= seg);
                assert(selected@ =~= sel0 + round_picks(sizes, bs, rnd, (g + 1) as nat));
            }
            if rem_before[g as int] > 0 && selected.len() < max {
                assert(popped > 0);
            }
        }
        if selected.len() == max {
            break;
        }
        if popped > 0 {
            progressed = true;
        }
        g += 1;
    }
    if selected.len() < max {
        assert(selected@ =~= curriculum_schedule(sizes, bs, rnd + 1));
    }
    progressed
}

/// `g` is the first category with samples.
pub open spec fn first_nonempty(sizes: Seq<usize>, g: int) -> bool {
    0 <= g < sizes.len() && sizes[g] > 0 && forall|j: int| 0 <= j < g ==> sizes[j] == 0
}

proof fn lemma_in_group_order_len(sizes: Seq<usize>)
    ensures
        in_group_order(sizes).len() == seq_sum(sizes),
    decreases sizes.len(),
{
    if sizes.len() > 0 {
        lemma_in_group_order_len(sizes.drop_last());
    }
}

/// The first round takes the newest sample of each category with samples, in
/// rank order.
proof fn lemma_first_round(sizes: Seq<usize>, bursts: Seq<usize>, n: nat)
    requires
        n <= sizes.len(),
    ensures
        (forall|j: int| 0 <= j < n ==> sizes[j] == 0) ==> round_picks(sizes, bursts, 0, n).len() == 0,
        forall|g: int|
            0 <= g < n && #[trigger] first_nonempty(sizes, g) ==> round_picks(sizes, bursts, 0, n).len()
                > 0 && round_picks(sizes, bursts, 0, n)[0] == (g as usize, (sizes[g] - 1) as usize),
    decreases n,
{
    if n > 0 {
        let m = (n - 1) as nat;
        lemma_first_round(sizes, bursts, m);
        let seg = round_segment(m, sizes[m as int] as nat, bursts[m as int], 0);
        assert(taken_through(sizes[m as int] as nat, bursts[m as int], 0) == 0);
        assert(taken_through(sizes[m as int] as nat, bursts[m as int], 1) == if sizes[m as int] > 0 {
            1nat
        } else {
            0nat
        });
        if sizes[m as int] > 0 {
            assert(seg.len() == 1);
            assert(seg[0] == (m as usize, (sizes[m as int] - 1) as usize));
        } else {
            assert(seg.len() == 0);
        }
        let rp = round_picks(sizes, bursts, 0, n);
        let rm = round_picks(sizes, bursts, 0, m);
        assert(rp == rm + seg);
        assert forall|g: int| 0 <= g < n && #[trigger] first_nonempty(sizes, g) implies rp.len() > 0
            && rp[0] == (g as usize, (sizes[g] - 1) as usize) by {
            if g < m {
                assert(rp[0] == rm[0]);
            } else {
                assert(forall|j: int| 0 <= j < m ==> sizes[j] == 0);
                assert(rm.len() == 0);
                assert(rp[0] == seg[0]);
            }
        }
    }
}

/// Later rounds only add picks behind those of the first round.
proof fn lemma_schedule_starts_with_first_round(sizes: Seq<usize>, bursts: Seq<usize>, k: nat)
    requires
        k >= 1,
    ensures
        curriculum_schedule(sizes, bursts, k).len() >= round_picks(sizes, bursts, 0, sizes.len()).len(),
        forall|i: int|
            0 <= i < round_picks(sizes, bursts, 0, sizes.len()).len() ==> #[trigger] curriculum_schedule(
                sizes,
                bursts,
                k,
            )[i] == round_picks(sizes, bursts, 0, sizes.len())[i],
    decreases k,
{
    let r0 = round_picks(sizes, bursts, 0, sizes.len());
    if k == 1 {
        assert(curriculum_schedule(sizes, bursts, 0) =~= seq![]);
        assert(curriculum_schedule(sizes, bursts, 1) =~= seq![] + r0);
    } else {
        lemma_schedule_starts_with_first_round(sizes, bursts, (k - 1) as nat);
        let prev = curriculum_schedule(sizes, bursts, (k - 1) as nat);
        let cur = curriculum_schedule(sizes, bursts, k);
        assert forall|i: int| 0 <= i < r0.len() implies #[trigger] cur[i] == r0[i] by {
            assert(cur[i] == prev[i]);
        }
    }
}

/// The samples a live prompt-optimisation update uses, given its categories in
/// rank order (hardest first): `group_sizes` counts each category's samples
/// and `burst_ceils` gives each category's burst size (a burst of at least
/// one is used). When all samples fit in `max_samples` they are all used,
/// category by category; otherwise the first round takes the newest sample
/// of each category in rank order, later rounds take a burst from each, and
/// the `max_samples` picks are returned oldest pick first. A pick is the
/// category's rank and the sample's position in its category.
pub fn curriculum_selection(
    group_sizes: &Vec<usize>,
    burst_ceils: &Vec<usize>,
    max_samples: usize,
) -> (r: Vec<(usize, usize)>)
    requires
        group_sizes.len() == burst_ceils.len(),
        seq_sum(group_sizes@) <= usize::MAX,
    ensures
        seq_sum(group_sizes@) <= max_samples ==> r@ == in_group_order(group_sizes@),
        seq_sum(group_sizes@) > max_samples ==> exists|k: nat|
            curriculum_schedule(group_sizes@, burst_ceils@, k).len() >= max_samples && r@
                == #[trigger] curriculum_schedule(group_sizes@, burst_ceils@, k).take(
                max_samples as int,
            ).reverse(),
        r@.len() == if seq_sum(group_sizes@) <= max_samples {
            seq_sum(group_sizes@)
        } else {
            max_samples as nat
        },
        seq_sum(group_sizes@) > max_samples > 0 ==> forall|g: int|
            #[trigger] first_nonempty(group_sizes@, g) ==> r@[r@.len() - 1] == (
                g as usize,
                (group_sizes@[g] - 1) as usize,
            ),
{
    let ghost sizes = group_sizes@;
    let n = group_sizes.len();
    let mut total: usize = 0;
    let mut i: usize = 0;
    while i < n
        invariant
            i <= n,
            n == sizes.len(),
            sizes == group_sizes@,
            seq_sum(sizes) <= usize::MAX,
            total == seq_sum(sizes.take(i as int)),
        decreases n - i,
    {
        proof {
            assert(sizes.take(i + 1).drop_last() =~= sizes.take(i as int));
            lemma_seq_sum_prefix(sizes, i + 1);
        }
        total = total + group_sizes[i];
        i += 1;
    }
    assert(sizes.take(n as int) =~= sizes);
    if total <= max_samples {
        let mut out: Vec<(usize, usize)> = Vec::new();
        let mut g: usize = 0;
        while g < n
            invariant
                g <= n,
                n == sizes.len(),
                sizes == group_sizes@,
                out@ == in_group_order(sizes.take(g as int)),
            decreases n - g,
        {
            let ghost before = out@;
            let mut k: usize = 0;
            while k < group_sizes[g]
                invariant
                    g < n,
                    n == sizes.len(),
                    sizes == group_sizes@,
                    k <= sizes[g as int],
                    out@ == before + Seq::new(k as nat, |j: int| (g, j as usize)),
                decreases sizes[g as int] - k,
            {
                out.push((g, k));
                k += 1;
                assert(out@ =~= before + Seq::new(k as nat, |j: int| (g, j as usize)));
            }
            proof {
                let t = sizes.take(g + 1);
                assert(t.drop_last() =~= sizes.take(g as int));
                assert(out@ =~= in_group_order(t));
            }
            g += 1;
        }
        proof {
            assert(sizes.take(n as int) =~= sizes);
            lemma_in_group_order_len(sizes);
        }
        return out;
    }
    if max_samples == 0 {
        assert(curriculum_schedule(sizes, burst_ceils@, 0).take(0).reverse() =~= seq![]);
        return Vec::new();
    }
    let mut remaining: Vec<usize> = Vec::new();
    let mut c: usize = 0;
    while c < n
        invariant
            c <= n,
            n == sizes.len(),
            sizes == group_sizes@,
            remaining@ == sizes.take(c as int),
        decreases n - c,
    {
        remaining.push(group_sizes[c]);
        c += 1;
        assert(remaining@ =~= sizes.take(c as int));
    }
    assert(remaining@ =~= sizes);
    let mut selected: Vec<(usize, usize)> = Vec::new();
    let mut first = true;
    let ghost mut rnd: nat = 0;
    let ghost mut done: nat = 0;
    loop
        invariant_except_break
            forall|h: int|
                0 <= h < n ==> #[trigger] remaining@[h] == sizes[h] - taken_through(
                    sizes[h] as nat,
                    burst_ceils@[h],
                    rnd,
                ),
            selected@ == curriculum_schedule(sizes, burst_ceils@, rnd),
            selected.len() < max_samples,
        invariant
            n == sizes.len(),
            sizes == group_sizes@,
            burst_ceils.len() == n,
            remaining.len() == n,
            first <==> rnd == 0,
            total == seq_sum(sizes),
            total > max_samples,
            seq_sum(remaining@) + selected.len() == total,
        ensures
            selected.len() == max_samples,
            done >= 1,
            curriculum_schedule(sizes, burst_ceils@, done).len() >= max_samples,
            selected@ == curriculum_schedule(sizes, burst_ceils@, done).take(max_samples as int),
        decreases total - selected.len(),
    {
        let progressed = run_round(
            &mut remaining,
            &mut selected,
            burst_ceils,
            first,
            max_samples,
            Ghost(sizes),
            Ghost(rnd),
        );
        if selected.len() == max_samples {
            proof {
                done = rnd + 1;
            }
            break;
        }
        if !progressed {
            proof {
                lemma_seq_sum_zero(remaining@);
            }
            assert(false);
            break;
        }
        first = false;
        proof {
            rnd = rnd + 1;
        }
    }
    let ghost pre = selected@;
    let mut out: Vec<(usize, usize)> = Vec::new();
    let mut j: usize = selected.len();
    while j > 0
        invariant
            j <= selected.len(),
            pre == selected@,
            out@.len() == selected.len() - j,
            forall|t: int| 0 <= t < out@.len() ==> #[trigger] out@[t] == pre[pre.len() - 1 - t],
        decreases j,
    {
        j -= 1;
        out.push(selected[j]);
    }
    assert(out@ =~= pre.reverse());
    proof {
        let sch = curriculum_schedule(sizes, burst_ceils@, done);
        assert(pre =~= sch.take(max_samples as int));
        assert forall|g: int| #[trigger] first_nonempty(sizes, g) implies out@[out@.len() - 1] == (
            g as usize,
            (sizes[g] - 1) as usize,
        ) by {
            lemma_first_round(sizes, burst_ceils@, sizes.len());
            lemma_schedule_starts_with_first_round(sizes, burst_ceils@, done);
            assert(sch[0] == round_picks(sizes, burst_ceils@, 0, sizes.len())[0]);
            assert(out@[out@.len() - 1] == pre[0]);
        }
    }
    out
}

/// The reason a live prompt-optimisation update is skipped for want of
/// samples: fewer curriculum samples than `apo_min_samples`, or fewer than two
/// whatever the setting, skip with `apo_insufficient_samples`; otherwise the
/// update goes on.
pub fn apo_sample_gate(sample_count: usize, apo_min_samples: usize) -> (r: Option<&'static str>)
    ensures
        r is Some <==> (sample_count < apo_min_samples || sample_count < 2),
        r matches Some(reason) ==> reason@ == "apo_insufficient_samples"@,
{
    if sample_count < apo_min_samples || sample_count < 2 {
        Some("apo_insufficient_samples")
    } else {
        None
    }
}

} // verus!
