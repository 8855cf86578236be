//! Settings and reply handling of the OpenRouter provider-repair adapter.
//!
//! Settings are resolved by precedence: an explicit value, then the process
//! environment, then the `.env` file named by the caller, then the nearest
//! `.env` file, then a built-in default. The caller reads the environment and
//! the files; this module decides. Replies are searched for JSON candidates:
//! the whole trimmed reply, every fenced block, and the first balanced object.
use vstd::prelude::*;

use crate::json_text::{fenced_blocks_spec, fenced_json_blocks, first_balanced_json_object, first_balanced_object_spec};
use crate::text::{
    append_str, chars_eq, chars_of, index_of, is_ascii_alnum, is_ascii_alnum_char, is_ascii_alpha,
    is_ascii_alpha_char, join, lines, lines_chars, starts_with, starts_with_str, string_of,
    string_views, sub_chars, trim, trim_chars, trim_start, trim_start_chars, views_of,
};

verus! {

pub const DEFAULT_OPENROUTER_API_BASE: &'static str = "https://openrouter.ai/api/v1";

pub const DEFAULT_OPENROUTER_MODEL: &'static str = "openrouter/openai/gpt-4.1-mini";

pub const PROVIDER_NAME: &'static str = "openrouter";

/// Configuration of one adapter run.
#[derive(Debug, Clone)]
pub struct OpenrouterRepairAdapterConfig {
    pub context_path: Option<String>,
    pub env_file: Option<String>,
    pub model: Option<String>,
    pub api_base: Option<String>,
    pub request_timeout_ms: u64,
    pub max_tokens: u32,
    pub max_retries: usize,
}

/// What the adapter sees of its environment: the values of the process
/// variables it asked for, and the contents of the explicit and of the nearest
/// `.env` file when they could be read.
#[derive(Debug, Clone)]
pub struct EnvSnapshot {
    pub process: Vec<(String, String)>,
    pub env_file_contents: Option<String>,
    pub nearest_dotenv_contents: Option<String>,
}

pub open spec fn opt_string_view(v: Option<String>) -> Option<Seq<char>> {
    match v {
        Some(s) => Some(s@),
        None => None,
    }
}

// ---------------------------------------------------------------------------
// Small helpers
// ---------------------------------------------------------------------------

/// `Some(trim(v))` unless the trimmed value is empty.
pub open spec fn trimmed_non_empty_spec(v: Seq<char>) -> Option<Seq<char>> {
    if trim(v).len() == 0 {
        None
    } else {
        Some(trim(v))
    }
}

pub fn trimmed_non_empty(value: &str) -> (r: Option<String>)
    ensures
        opt_string_view(r) == trimmed_non_empty_spec(value@),
{
    let vc = chars_of(value);
    let t = trim_chars(&vc);
    if t.len() == 0 {
        None
    } else {
        Some(string_of(&t))
    }
}

/// The configured file, else the nearest `.env` file found by the caller.
pub fn resolve_openrouter_env_file(configured: Option<String>, nearest: Option<String>) -> (r:
    Option<String>)
    ensures
        r == match configured {
            Some(c) => Some(c),
            None => nearest,
        },
{
    match configured {
        Some(c) => Some(c),
        None => nearest,
    }
}

/// What the search for the nearest `.env` finds in one directory.
#[derive(Debug, Clone, Copy, PartialEq, Eq, Structural)]
pub struct DotenvProbe {
    /// The directory holds a `.env` file.
    pub has_dotenv: bool,
    /// The directory holds `.git` (the repository root).
    pub has_git: bool,
}

/// The first directory, from the current one upwards, that holds a `.env`
/// file; the search stops after the repository root.
pub open spec fn nearest_dotenv_spec(probes: Seq<DotenvProbe>) -> Option<int>
    decreases probes.len(),
{
    if probes.len() == 0 {
        None
    } else if probes[0].has_dotenv {
        Some(0)
    } else if probes[0].has_git {
        None
    } else {
        match nearest_dotenv_spec(probes.drop_first()) {
            Some(i) => Some(i + 1),
            None => None,
        }
    }
}

/// Picks the nearest `.env` among the directories probed from the current
/// one upwards (`probes[0]` is the current directory).
pub fn nearest_dotenv_index(probes: &Vec<DotenvProbe>) -> (r: Option<usize>)
    ensures
        match r {
            Some(i) => nearest_dotenv_spec(probes@) == Some(i as int),
            None => nearest_dotenv_spec(probes@) is None,
        },
{
    let mut i: usize = 0;
    assert(probes@.skip(0) =~= probes@);
    while i < probes.len()
        invariant
            i <= probes.len(),
            nearest_dotenv_spec(probes@) == match nearest_dotenv_spec(probes@.skip(i as int)) {
                Some(k) => Some(k + i),
                None => None,
            },
        decreases probes.len() - i,
    {
        let ghost rest = probes@.skip(i as int);
        assert(rest[0] == probes@[i as int]);
        if probes[i].has_dotenv {
            return Some(i);
        }
        if probes[i].has_git {
            return None;
        }
        assert(rest.drop_first() =~= probes@.skip(i + 1));
        i += 1;
    }
    assert(probes@.skip(i as int).len() == 0);
    None
}

/// The model identifier sent to the API: the trimmed reference without a
/// leading `openrouter/`.
pub open spec fn api_model_id_spec(model_ref: Seq<char>) -> Option<Seq<char>> {
    let m = trim(model_ref);
    if m.len() == 0 {
        None
    } else if starts_with(m, "openrouter/"@) {
        Some(m.skip(11))
    } else {
        Some(m)
    }
}

/// The OpenRouter model must not be empty.
#[derive(Debug, Clone, Copy, PartialEq, Eq)]
pub struct EmptyModelError;

impl EmptyModelError {
    pub fn to_string(&self) -> (s: String)
        ensures
            s@ == "OpenRouter model must not be empty"@,
    {
        String::from_str("OpenRouter model must not be empty")
    }
}

/// Strips the `openrouter/` routing prefix from a model reference.
pub fn openrouter_api_model_id(model_ref: &str) -> (r: Result<String, EmptyModelError>)
    ensures
        r is Ok <==> api_model_id_spec(model_ref@) is Some,
        r matches Ok(m) ==> api_model_id_spec(model_ref@) == Some(m@),
{
    let mc = chars_of(model_ref);
    let m = trim_chars(&mc);
    if m.len() == 0 {
        return Err(EmptyModelError);
    }
    if starts_with_str(&m, "openrouter/") {
        proof {
            reveal_strlit("openrouter/");
        }
        let rest = sub_chars(&m, 11, m.len());
        assert(rest@ =~= m@.skip(11));
        Ok(string_of(&rest))
    } else {
        Ok(string_of(&m))
    }
}

// ---------------------------------------------------------------------------
// .env files
// ---------------------------------------------------------------------------

/// A shell-style variable name: a letter or `_`, then letters, digits or `_`.
pub open spec fn is_dotenv_name_spec(name: Seq<char>) -> bool {
    &&& name.len() > 0
    &&& (name[0] == '_' || is_ascii_alpha(name[0]))
    &&& forall|i: int| 1 <= i < name.len() ==> (#[trigger] name[i] == '_' || is_ascii_alnum(name[i]))
}

pub fn is_dotenv_name(name: &[char]) -> (b: bool)
    ensures
        b == is_dotenv_name_spec(name@),
{
    if name.len() == 0 {
        return false;
    }
    if !(name[0] == '_' || is_ascii_alpha_char(name[0])) {
        return false;
    }
    let mut i: usize = 1;
    while i < name.len()
        invariant
            1 <= i <= name.len(),
            forall|j: int| 1 <= j < i ==> (#[trigger] name@[j] == '_' || is_ascii_alnum(name@[j])),
        decreases name.len() - i,
    {
        if !(name[i] == '_' || is_ascii_alnum_char(name[i])) {
            return false;
        }
        i += 1;
    }
    true
}

/// A value wrapped in matching double or single quotes loses them.
pub open spec fn strip_dotenv_quotes_spec(v: Seq<char>) -> Seq<char> {
    if v.len() >= 2 && ((v[0] == '"' && v.last() == '"') || (v[0] == '\'' && v.last() == '\'')) {
        v.subrange(1, v.len() - 1)
    } else {
        v
    }
}

pub fn strip_dotenv_quotes(value: &[char]) -> (r: Vec<char>)
    ensures
        r@ == strip_dotenv_quotes_spec(value@),
{
    let n = value.len();
    if n >= 2 && ((value[0] == '"' && value[n - 1] == '"') || (value[0] == '\'' && value[n - 1]
        == '\'')) {
        sub_chars(value, 1, n - 1)
    } else {
        sub_chars(value, 0, n)
    }
}

/// The text of a line once comments, blanks and an `export ` prefix are handled.
pub open spec fn dotenv_body(line: Seq<char>) -> Option<Seq<char>> {
    let t = trim(line);
    if t.len() == 0 || t[0] == '#' {
        None
    } else if starts_with(t, "export "@) {
        Some(trim_start(t.skip(7)))
    } else {
        Some(t)
    }
}

/// `NAME=value` (optionally `export NAME=value`) for the expected name: the
/// trimmed value with matching quotes removed.
pub open spec fn parse_dotenv_line_spec(line: Seq<char>, expected: Seq<char>) -> Option<Seq<char>> {
    match dotenv_body(line) {
        None => None,
        Some(b) => {
            let eq = index_of(b, '=');
            if eq >= b.len() {
                None
            } else {
                let name = trim(b.take(eq));
                if name != expected || !is_dotenv_name_spec(name) {
                    None
                } else {
                    Some(strip_dotenv_quotes_spec(trim(b.skip(eq + 1))))
                }
            }
        },
    }
}

pub fn first_index(s: &[char], c: char) -> (r: usize)
    ensures
        r as int == index_of(s@, c),
        r <= s.len(),
{
    let mut i: usize = 0;
    while i < s.len() && s[i] != c
        invariant
            i <= s.len(),
            forall|j: int| 0 <= j < i ==> s@[j] != c,
        decreases s.len() - i,
    {
        i += 1;
    }
    proof {
        crate::text::lemma_index_of(s@, c, i as int);
    }
    i
}

pub fn parse_dotenv_line(line: &[char], expected_name: &[char]) -> (r: Option<Vec<char>>)
    ensures
        match r {
            Some(v) => parse_dotenv_line_spec(line@, expected_name@) == Some(v@),
            None => parse_dotenv_line_spec(line@, expected_name@) is None,
        },
{
    let t = trim_chars(line);
    if t.len() == 0 || t[0] == '#' {
        return None;
    }
    let body = if starts_with_str(&t, "export ") {
        proof {
            reveal_strlit("export ");
        }
        let rest = sub_chars(&t, 7, t.len());
        assert(rest@ =~= t@.skip(7));
        trim_start_chars(&rest)
    } else {
        t
    };
    assert(dotenv_body(line@) == Some(body@));
    let eq = first_index(&body, '=');
    if eq >= body.len() {
        return None;
    }
    let name_raw = sub_chars(&body, 0, eq);
    assert(name_raw@ =~= body@.take(eq as int));
    let name = trim_chars(&name_raw);
    if !chars_eq(&name, expected_name) || !is_dotenv_name(&name) {
        return None;
    }
    let value_raw = sub_chars(&body, eq + 1, body.len());
    assert(value_raw@ =~= body@.skip(eq + 1));
    let value = trim_chars(&value_raw);
    Some(strip_dotenv_quotes(&value))
}

/// The first line of `lines` that sets `name` to a value that is not blank.
pub open spec fn dotenv_lookup(ls: Seq<Seq<char>>, name: Seq<char>) -> Option<Seq<char>>
    decreases ls.len(),
{
    if ls.len() == 0 {
        None
    } else {
        match parse_dotenv_line_spec(ls[0], name) {
            Some(v) => if trim(v).len() > 0 {
                Some(v)
            } else {
                dotenv_lookup(ls.drop_first(), name)
            },
            None => dotenv_lookup(ls.drop_first(), name),
        }
    }
}

/// The value a `.env` text gives `name`.
pub open spec fn dotenv_value_spec(contents: Seq<char>, name: Seq<char>) -> Option<Seq<char>> {
    dotenv_lookup(lines(contents), name)
}

pub fn dotenv_value(contents: &str, name: &str) -> (r: Option<String>)
    ensures
        opt_string_view(r) == dotenv_value_spec(contents@, name@),
{
    let cc = chars_of(contents);
    let nc = chars_of(name);
    let ls = lines_chars(&cc);
    let ghost lv = views_of(ls@);
    assert(lv.skip(0) =~= lv);
    let mut i: usize = 0;
    while i < ls.len()
        invariant
            i <= ls.len(),
            lv == views_of(ls@),
            lv == lines(contents@),
            nc@ == name@,
            dotenv_lookup(lv.skip(i as int), name@) == dotenv_lookup(lv, name@),
        decreases ls.len() - i,
    {
        let ghost rest = lv.skip(i as int);
        assert(rest[0] == ls@[i as int]@);
        assert(rest.drop_first() =~= lv.skip(i + 1));
        match parse_dotenv_line(&ls[i], &nc) {
            Some(v) => {
                let t = trim_chars(&v);
                if t.len() > 0 {
                    return Some(string_of(&v));
                }
            },
            None => {},
        }
        i += 1;
    }
    assert(lv.skip(ls.len() as int) =~= Seq::<Seq<char>>::empty());
    None
}

// ---------------------------------------------------------------------------
// Environment precedence
// ---------------------------------------------------------------------------

/// The value of the first entry named `name`.
pub open spec fn process_lookup(pairs: Seq<(String, String)>, name: Seq<char>) -> Option<Seq<char>>
    decreases pairs.len(),
{
    if pairs.len() == 0 {
        None
    } else if pairs[0].0@ == name {
        Some(pairs[0].1@)
    } else {
        process_lookup(pairs.drop_first(), name)
    }
}

/// A process variable counts when its trimmed value is not empty.
pub open spec fn non_empty_env_spec(snap: EnvSnapshot, name: Seq<char>) -> Option<Seq<char>> {
    match process_lookup(snap.process@, name) {
        Some(v) => trimmed_non_empty_spec(v),
        None => None,
    }
}

pub open spec fn file_lookup(contents: Option<String>, name: Seq<char>) -> Option<Seq<char>> {
    match contents {
        Some(c) => dotenv_value_spec(c@, name),
        None => None,
    }
}

/// Process environment, then the explicit `.env` file, then the nearest one.
pub open spec fn env_or_dotenv_spec(snap: EnvSnapshot, name: Seq<char>) -> Option<Seq<char>> {
    match non_empty_env_spec(snap, name) {
        Some(v) => Some(v),
        None => match file_lookup(snap.env_file_contents, name) {
            Some(v) => Some(v),
            None => file_lookup(snap.nearest_dotenv_contents, name),
        },
    }
}

/// The first of `names` that has a value.
pub open spec fn first_env_value_spec(snap: EnvSnapshot, names: Seq<Seq<char>>) -> Option<
    Seq<char>,
>
    decreases names.len(),
{
    if names.len() == 0 {
        None
    } else {
        match env_or_dotenv_spec(snap, names[0]) {
            Some(v) => Some(v),
            None => first_env_value_spec(snap, names.drop_first()),
        }
    }
}

fn process_value(snap: &EnvSnapshot, name: &str) -> (r: Option<String>)
    ensures
        opt_string_view(r) == non_empty_env_spec(*snap, name@),
{
    let nc = chars_of(name);
    assert(snap.process@.skip(0) =~= snap.process@);
    let mut i: usize = 0;
    while i < snap.process.len()
        invariant
            i <= snap.process.len(),
            nc@ == name@,
            process_lookup(snap.process@.skip(i as int), name@) == process_lookup(
                snap.process@,
                name@,
            ),
        decreases snap.process.len() - i,
    {
        let ghost rest = snap.process@.skip(i as int);
        assert(rest[0] == snap.process@[i as int]);
        assert(rest.drop_first() =~= snap.process@.skip(i + 1));
        let key = chars_of(snap.process[i].0.as_str());
        if chars_eq(&key, &nc) {
            return trimmed_non_empty(snap.process[i].1.as_str());
        }
        i += 1;
    }
    assert(snap.process@.skip(snap.process.len() as int) =~= Seq::<(String, String)>::empty());
    None
}

fn file_value(contents: &Option<String>, name: &str) -> (r: Option<String>)
    ensures
        opt_string_view(r) == file_lookup(*contents, name@),
{
    match contents {
        Some(c) => dotenv_value(c.as_str(), name),
        None => None,
    }
}

/// The value of `name` by precedence: process environment, explicit `.env`, nearest `.env`.
pub fn env_or_dotenv_var(snap: &EnvSnapshot, name: &str) -> (r: Option<String>)
    ensures
        opt_string_view(r) == env_or_dotenv_spec(*snap, name@),
{
    match process_value(snap, name) {
        Some(v) => Some(v),
        None => match file_value(&snap.env_file_contents, name) {
            Some(v) => Some(v),
            None => file_value(&snap.nearest_dotenv_contents, name),
        },
    }
}

pub open spec fn str_views(v: Seq<&str>) -> Seq<Seq<char>> {
    v.map_values(|s: &str| s@)
}

/// The first of `names` that has a value.
pub fn first_env_value(snap: &EnvSnapshot, names: &Vec<&str>) -> (r: Option<String>)
    ensures
        opt_string_view(r) == first_env_value_spec(*snap, str_views(names@)),
{
    let ghost nv = str_views(names@);
    assert(nv.skip(0) =~= nv);
    let mut i: usize = 0;
    while i < names.len()
        invariant
            i <= names.len(),
            nv == str_views(names@),
            first_env_value_spec(*snap, nv.skip(i as int)) == first_env_value_spec(*snap, nv),
        decreases names.len() - i,
    {
        let ghost rest = nv.skip(i as int);
        assert(rest[0] == names@[i as int]@);
        assert(rest.drop_first() =~= nv.skip(i + 1));
        match env_or_dotenv_var(snap, names[i]) {
            Some(v) => {
                return Some(v);
            },
            None => {},
        }
        i += 1;
    }
    assert(nv.skip(names.len() as int) =~= Seq::<Seq<char>>::empty());
    None
}

/// Variables that name the repair model, by precedence.
pub open spec fn model_env_names_spec() -> Seq<Seq<char>> {
    seq![
        "TAU_PROVIDER_REPAIR_MODEL"@,
        "TAU_AUTONOMOUS_CODING_REPAIR_MODEL"@,
        "TAU_PROVIDER_PROOF_MODEL"@,
        "TAU_OPENROUTER_MODEL"@,
    ]
}

/// Variables that name the API base, by precedence.
pub open spec fn api_base_env_names_spec() -> Seq<Seq<char>> {
    seq![
        "TAU_PROVIDER_REPAIR_API_BASE"@,
        "TAU_AUTONOMOUS_CODING_REPAIR_API_BASE"@,
        "TAU_OPENROUTER_API_BASE"@,
    ]
}

/// Variables that hold the API key, by precedence.
pub open spec fn api_key_env_names_spec() -> Seq<Seq<char>> {
    seq!["OPENROUTER_API_KEY"@, "TAU_OPENROUTER_API_KEY"@, "OPENAI_API_KEY"@, "TAU_API_KEY"@]
}

pub fn model_env_names() -> (v: Vec<&'static str>)
    ensures
        str_views(v@) == model_env_names_spec(),
{
    let mut v: Vec<&'static str> = Vec::new();
    v.push("TAU_PROVIDER_REPAIR_MODEL");
    v.push("TAU_AUTONOMOUS_CODING_REPAIR_MODEL");
    v.push("TAU_PROVIDER_PROOF_MODEL");
    v.push("TAU_OPENROUTER_MODEL");
    assert(str_views(v@) =~= model_env_names_spec());
    v
}

pub fn api_base_env_names() -> (v: Vec<&'static str>)
    ensures
        str_views(v@) == api_base_env_names_spec(),
{
    let mut v: Vec<&'static str> = Vec::new();
    v.push("TAU_PROVIDER_REPAIR_API_BASE");
    v.push("TAU_AUTONOMOUS_CODING_REPAIR_API_BASE");
    v.push("TAU_OPENROUTER_API_BASE");
    assert(str_views(v@) =~= api_base_env_names_spec());
    v
}

pub fn api_key_env_names() -> (v: Vec<&'static str>)
    ensures
        str_views(v@) == api_key_env_names_spec(),
{
    let mut v: Vec<&'static str> = Vec::new();
    v.push("OPENROUTER_API_KEY");
    v.push("TAU_OPENROUTER_API_KEY");
    v.push("OPENAI_API_KEY");
    v.push("TAU_API_KEY");
    assert(str_views(v@) =~= api_key_env_names_spec());
    v
}

pub open spec fn opt_str_view(v: Option<&str>) -> Option<Seq<char>> {
    match v {
        Some(s) => Some(s@),
        None => None,
    }
}

/// An explicit non-blank value, else the first variable set, else the default.
pub open spec fn resolve_setting_spec(
    configured: Option<Seq<char>>,
    snap: EnvSnapshot,
    names: Seq<Seq<char>>,
    default: Seq<char>,
) -> Seq<char> {
    match (match configured {
        Some(c) => trimmed_non_empty_spec(c),
        None => None,
    }) {
        Some(v) => v,
        None => match first_env_value_spec(snap, names) {
            Some(v) => v,
            None => default,
        },
    }
}

fn resolve_setting(configured: Option<&str>, snap: &EnvSnapshot, names: &Vec<&str>, default: &str) -> (r:
    String)
    ensures
        r@ == resolve_setting_spec(opt_str_view(configured), *snap, str_views(names@), default@),
{
    let explicit = match configured {
        Some(c) => trimmed_non_empty(c),
        None => None,
    };
    match explicit {
        Some(v) => v,
        None => match first_env_value(snap, names) {
            Some(v) => v,
            None => String::from_str(default),
        },
    }
}

/// The repair model to use.
pub fn resolve_openrouter_repair_model(configured: Option<&str>, snap: &EnvSnapshot) -> (r: String)
    ensures
        r@ == resolve_setting_spec(
            opt_str_view(configured),
            *snap,
            model_env_names_spec(),
            DEFAULT_OPENROUTER_MODEL@,
        ),
{
    let names = model_env_names();
    resolve_setting(configured, snap, &names, DEFAULT_OPENROUTER_MODEL)
}

/// The API base to use.
pub fn resolve_openrouter_api_base(configured: Option<&str>, snap: &EnvSnapshot) -> (r: String)
    ensures
        r@ == resolve_setting_spec(
            opt_str_view(configured),
            *snap,
            api_base_env_names_spec(),
            DEFAULT_OPENROUTER_API_BASE@,
        ),
{
    let names = api_base_env_names();
    resolve_setting(configured, snap, &names, DEFAULT_OPENROUTER_API_BASE)
}

/// The key from the first name that has one, looking at the process
/// environment and then the explicit `.env` file for each name in turn, with
/// its source: the variable name, or `<env file path>:<name>`.
pub open spec fn api_key_lookup(snap: EnvSnapshot, env_file: Option<Seq<char>>, names: Seq<Seq<char>>) -> Option<(Seq<char>, Seq<char>)>
    decreases names.len(),
{
    if names.len() == 0 {
        None
    } else {
        match non_empty_env_spec(snap, names[0]) {
            Some(v) => Some((v, names[0])),
            None => match (env_file, file_lookup(snap.env_file_contents, names[0])) {
                (Some(p), Some(v)) => Some((v, p + ":"@ + names[0])),
                _ => api_key_lookup(snap, env_file, names.drop_first()),
            },
        }
    }
}

/// The API key and where it came from, when the environment or the explicit
/// `.env` file has one.
pub fn resolve_openrouter_api_key(snap: &EnvSnapshot, env_file: Option<&str>) -> (r: Option<
    (String, String),
>)
    ensures
        match r {
            Some((v, s)) => api_key_lookup(*snap, opt_str_view(env_file), api_key_env_names_spec())
                == Some((v@, s@)),
            None => api_key_lookup(*snap, opt_str_view(env_file), api_key_env_names_spec()) is None,
        },
{
    let names = api_key_env_names();
    let ghost nv = str_views(names@);
    assert(nv.skip(0) =~= nv);
    let mut i: usize = 0;
    while i < names.len()
        invariant
            i <= names.len(),
            nv == str_views(names@),
            nv == api_key_env_names_spec(),
            api_key_lookup(*snap, opt_str_view(env_file), nv.skip(i as int)) == api_key_lookup(
                *snap,
                opt_str_view(env_file),
                nv,
            ),
        decreases names.len() - i,
    {
        let ghost rest = nv.skip(i as int);
        assert(rest[0] == names@[i as int]@);
        assert(rest.drop_first() =~= nv.skip(i + 1));
        match process_value(snap, names[i]) {
            Some(v) => {
                return Some((v, String::from_str(names[i])));
            },
            None => {},
        }
        match env_file {
            Some(path) => {
                match file_value(&snap.env_file_contents, names[i]) {
                    Some(v) => {
                        let mut src = chars_of(path);
                        append_str(&mut src, ":");
                        append_str(&mut src, names[i]);
                        return Some((v, string_of(&src)));
                    },
                    None => {},
                }
            },
            None => {},
        }
        i += 1;
    }
    assert(nv.skip(names.len() as int) =~= Seq::<Seq<char>>::empty());
    None
}

// ---------------------------------------------------------------------------
// Replies
// ---------------------------------------------------------------------------

/// Appends a non-empty candidate that is not there yet.
pub open spec fn push_candidate_spec(cands: Seq<Seq<char>>, c: Seq<char>) -> Seq<Seq<char>> {
    if c.len() == 0 || cands.contains(c) {
        cands
    } else {
        cands.push(c)
    }
}

pub open spec fn push_all_spec(cands: Seq<Seq<char>>, more: Seq<Seq<char>>) -> Seq<Seq<char>>
    decreases more.len(),
{
    if more.len() == 0 {
        cands
    } else {
        push_all_spec(push_candidate_spec(cands, trim(more[0])), more.drop_first())
    }
}

/// The candidates of a reply, without repeats: the trimmed reply, each trimmed
/// fenced block, and the trimmed first balanced object.
pub open spec fn provider_json_candidates_spec(text: Seq<char>) -> Seq<Seq<char>> {
    let c1 = push_candidate_spec(seq![], trim(text));
    let c2 = push_all_spec(c1, fenced_blocks_spec(text));
    match first_balanced_object_spec(text) {
        Some(o) => push_candidate_spec(c2, trim(o)),
        None => c2,
    }
}

proof fn lemma_push_candidate_clean(cands: Seq<Seq<char>>, c: Seq<char>)
    requires
        cands.no_duplicates(),
        forall|i: int| 0 <= i < cands.len() ==> (#[trigger] cands[i]).len() > 0,
    ensures
        push_candidate_spec(cands, c).no_duplicates(),
        forall|i: int| 0 <= i < push_candidate_spec(cands, c).len() ==> (
        #[trigger] push_candidate_spec(cands, c)[i]).len() > 0,
{
    if !(c.len() == 0 || cands.contains(c)) {
        let p = cands.push(c);
        assert forall|i: int, j: int| 0 <= i < p.len() && 0 <= j < p.len() && i != j implies p[i]
            != p[j] by {
            if i == cands.len() {
                assert(cands[j] == p[j]);
            } else if j == cands.len() {
                assert(cands[i] == p[i]);
            }
        }
        assert forall|i: int| 0 <= i < p.len() implies (#[trigger] p[i]).len() > 0 by {
            if i < cands.len() {
                assert(p[i] == cands[i]);
            }
        }
    }
}

proof fn lemma_push_all_clean(cands: Seq<Seq<char>>, more: Seq<Seq<char>>)
    requires
        cands.no_duplicates(),
        forall|i: int| 0 <= i < cands.len() ==> (#[trigger] cands[i]).len() > 0,
    ensures
        push_all_spec(cands, more).no_duplicates(),
        forall|i: int| 0 <= i < push_all_spec(cands, more).len() ==> (
        #[trigger] push_all_spec(cands, more)[i]).len() > 0,
    decreases more.len(),
{
    if more.len() > 0 {
        lemma_push_candidate_clean(cands, trim(more[0]));
        lemma_push_all_clean(push_candidate_spec(cands, trim(more[0])), more.drop_first());
    }
}

/// The candidates of a reply are non-empty and never repeat, so no candidate
/// is tried twice.
pub proof fn lemma_provider_json_candidates_distinct(text: Seq<char>)
    ensures
        provider_json_candidates_spec(text).no_duplicates(),
        forall|i: int| 0 <= i < provider_json_candidates_spec(text).len() ==> (
        #[trigger] provider_json_candidates_spec(text)[i]).len() > 0,
{
    let e: Seq<Seq<char>> = seq![];
    lemma_push_candidate_clean(e, trim(text));
    let c1 = push_candidate_spec(e, trim(text));
    lemma_push_all_clean(c1, crate::json_text::fenced_blocks_spec(text));
    let c2 = push_all_spec(c1, crate::json_text::fenced_blocks_spec(text));
    match first_balanced_object_spec(text) {
        Some(o) => lemma_push_candidate_clean(c2, trim(o)),
        None => {},
    }
}

fn contains_candidate(cands: &Vec<Vec<char>>, c: &[char]) -> (b: bool)
    ensures
        b == views_of(cands@).contains(c@),
{
    let mut i: usize = 0;
    while i < cands.len()
        invariant
            i <= cands.len(),
            forall|j: int| 0 <= j < i ==> cands@[j]@ != c@,
        decreases cands.len() - i,
    {
        if chars_eq(&cands[i], c) {
            assert(views_of(cands@)[i as int] == c@);
            return true;
        }
        i += 1;
    }
    assert forall|j: int| 0 <= j < views_of(cands@).len() implies views_of(cands@)[j] != c@ by {
        assert(views_of(cands@)[j] == cands@[j]@);
    }
    false
}

/// Adds a candidate unless it is empty or already present.
pub fn push_candidate(cands: &mut Vec<Vec<char>>, c: Vec<char>)
    ensures
        views_of(final(cands)@) == push_candidate_spec(views_of(old(cands)@), c@),
{
    if c.len() == 0 {
        return;
    }
    if contains_candidate(cands, &c) {
        return;
    }
    let ghost before = cands@;
    cands.push(c);
    assert(views_of(cands@) =~= views_of(before).push(c@));
}

/// JSON candidates of a reply, in the order they are tried.
pub fn provider_json_candidates(text: &str) -> (r: Vec<String>)
    ensures
        string_views(r@) == provider_json_candidates_spec(text@),
{
    let tc = chars_of(text);
    let mut cands: Vec<Vec<char>> = Vec::new();
    assert(views_of(cands@) =~= Seq::<Seq<char>>::empty());
    push_candidate(&mut cands, trim_chars(&tc));
    let blocks = fenced_json_blocks(&tc);
    let ghost bv = views_of(blocks@);
    let ghost c1 = views_of(cands@);
    assert(bv.skip(0) =~= bv);
    let mut i: usize = 0;
    while i < blocks.len()
        invariant
            i <= blocks.len(),
            bv == views_of(blocks@),
            push_all_spec(views_of(cands@), bv.skip(i as int)) == push_all_spec(c1, bv),
        decreases blocks.len() - i,
    {
        let ghost rest = bv.skip(i as int);
        assert(rest[0] == blocks@[i as int]@);
        assert(rest.drop_first() =~= bv.skip(i + 1));
        push_candidate(&mut cands, trim_chars(&blocks[i]));
        i += 1;
    }
    assert(bv.skip(blocks.len() as int) =~= Seq::<Seq<char>>::empty());
    match first_balanced_json_object(&tc) {
        Some(o) => push_candidate(&mut cands, trim_chars(&o)),
        None => {},
    }
    crate::text::strings_of_all(&cands)
}

/// The system prompt of the repair request.
pub fn provider_repair_system_prompt() -> (s: String)
    ensures
        s@ == join(
            seq![
                "You are Tau's provider repair adapter for an autonomous coding job."@,
                "Return only one JSON object and no Markdown."@,
                "Use one of these schemas:"@,
                "{\"relative_path\":\"path/in/repo\",\"contents\":\"full file contents\",\"reason_code\":\"short_reason\"}"@,
                "{\"edits\":[{\"relative_path\":\"path/in/repo\",\"contents\":\"full file contents\",\"reason_code\":\"short_reason\"}]}"@,
                "{\"files\":{\"path/in/repo\":\"full file contents\"},\"reason_code\":\"short_reason\"}"@,
                "{\"diff\":\"--- a/path\\n+++ b/path\\n@@ ...\",\"reason_code\":\"short_reason\"}"@,
                "Paths must be relative to the repository, must not include '..', and must not be absolute."@,
                "Make the smallest targeted repair needed for the failed verifier output."@,
            ],
            "\n"@,
        ),
{
    let mut parts: Vec<String> = Vec::new();
    parts.push(String::from_str("You are Tau's provider repair adapter for an autonomous coding job."));
    parts.push(String::from_str("Return only one JSON object and no Markdown."));
    parts.push(String::from_str("Use one of these schemas:"));
    parts.push(String::from_str("{\"relative_path\":\"path/in/repo\",\"contents\":\"full file contents\",\"reason_code\":\"short_reason\"}"));
    parts.push(String::from_str("{\"edits\":[{\"relative_path\":\"path/in/repo\",\"contents\":\"full file contents\",\"reason_code\":\"short_reason\"}]}"));
    parts.push(String::from_str("{\"files\":{\"path/in/repo\":\"full file contents\"},\"reason_code\":\"short_reason\"}"));
    parts.push(String::from_str("{\"diff\":\"--- a/path\\n+++ b/path\\n@@ ...\",\"reason_code\":\"short_reason\"}"));
    parts.push(String::from_str("Paths must be relative to the repository, must not include '..', and must not be absolute."));
    parts.push(String::from_str("Make the smallest targeted repair needed for the failed verifier output."));
    let joined = crate::text::join_strings(&parts, "\n");
    assert(string_views(parts@) =~= seq![
        "You are Tau's provider repair adapter for an autonomous coding job."@,
        "Return only one JSON object and no Markdown."@,
        "Use one of these schemas:"@,
        "{\"relative_path\":\"path/in/repo\",\"contents\":\"full file contents\",\"reason_code\":\"short_reason\"}"@,
        "{\"edits\":[{\"relative_path\":\"path/in/repo\",\"contents\":\"full file contents\",\"reason_code\":\"short_reason\"}]}"@,
        "{\"files\":{\"path/in/repo\":\"full file contents\"},\"reason_code\":\"short_reason\"}"@,
        "{\"diff\":\"--- a/path\\n+++ b/path\\n@@ ...\",\"reason_code\":\"short_reason\"}"@,
        "Paths must be relative to the repository, must not include '..', and must not be absolute."@,
        "Make the smallest targeted repair needed for the failed verifier output."@,
    ]);
    string_of(&joined)
}


// ---------------------------------------------------------------------------
// Validating the reply
// ---------------------------------------------------------------------------

/// A reply candidate that met the edit/diff contract, with its edit paths.
#[derive(Debug, Clone)]
pub struct ValidatedProviderRepairJson {
    pub json: String,
    pub edit_paths: Vec<String>,
}

pub open spec fn parsed_view(r: Result<Vec<String>, String>) -> Result<Seq<Seq<char>>, Seq<char>> {
    match r {
        Ok(v) => Ok(string_views(v@)),
        Err(e) => Err(e@),
    }
}

pub open spec fn parsed_views(p: Seq<Result<Vec<String>, String>>) -> Seq<Result<Seq<Seq<char>>, Seq<char>>> {
    p.map_values(|r: Result<Vec<String>, String>| parsed_view(r))
}

pub open spec fn contract_error_prefix() -> Seq<char> {
    "OpenRouter repair response did not match Tau edit/diff contract: "@
}

/// The first candidate whose parse succeeded, with its edit paths; else the
/// contract error with the first parse error, or with "no JSON object found"
/// when there was no candidate.
pub open spec fn repair_json_choice(c: Seq<Seq<char>>, p: Seq<Result<Seq<Seq<char>>, Seq<char>>>) -> Result<
    (Seq<char>, Seq<Seq<char>>),
    Seq<char>,
>
    decreases p.len(),
{
    if p.len() == 0 || c.len() == 0 {
        Err(contract_error_prefix() + "no JSON object found in provider response"@)
    } else {
        match p[0] {
            Ok(paths) => Ok((c[0], paths)),
            Err(e) => match repair_json_choice(c.drop_first(), p.drop_first()) {
                Ok(x) => Ok(x),
                Err(_) => Err(contract_error_prefix() + e),
            },
        }
    }
}

proof fn lemma_choice_skip(c: Seq<Seq<char>>, p: Seq<Result<Seq<Seq<char>>, Seq<char>>>, i: int)
    requires
        0 < i <= p.len(),
        c.len() == p.len(),
        forall|j: int| 0 <= j < i ==> p[j] is Err,
    ensures
        repair_json_choice(c, p) == match repair_json_choice(c.skip(i), p.skip(i)) {
            Ok(y) => Ok(y),
            Err(_) => Err(contract_error_prefix() + p[0]->Err_0),
        },
    decreases i,
{
    if i == 1 {
        assert(c.skip(1) =~= c.drop_first());
        assert(p.skip(1) =~= p.drop_first());
    } else {
        let (c1, p1) = (c.drop_first(), p.drop_first());
        assert forall|j: int| 0 <= j < i - 1 implies p1[j] is Err by {
            assert(p1[j] == p[j + 1]);
        }
        lemma_choice_skip(c1, p1, i - 1);
        assert(c1.skip(i - 1) =~= c.skip(i));
        assert(p1.skip(i - 1) =~= p.skip(i));
    }
}

/// Picks the validated JSON among the reply's candidates, given the outcome of
/// checking each candidate against the edit/diff contract (in the same order).
pub fn select_validated_repair_json(
    candidates: &Vec<String>,
    parsed: &Vec<Result<Vec<String>, String>>,
) -> (r: Result<ValidatedProviderRepairJson, String>)
    requires
        candidates.len() == parsed.len(),
    ensures
        match (r, repair_json_choice(string_views(candidates@), parsed_views(parsed@))) {
            (Ok(v), Ok((json, paths))) => v.json@ == json && string_views(v.edit_paths@) == paths,
            (Err(e), Err(f)) => e@ == f,
            _ => false,
        },
{
    let ghost cv = string_views(candidates@);
    let ghost pv = parsed_views(parsed@);
    let mut first_error: Option<String> = None;
    let mut i: usize = 0;
    while i < parsed.len()
        invariant
            i <= parsed.len(),
            candidates.len() == parsed.len(),
            cv == string_views(candidates@),
            pv == parsed_views(parsed@),
            forall|j: int| 0 <= j < i ==> pv[j] is Err,
            match first_error {
                None => i == 0,
                Some(e) => i > 0 && pv[0] == Err::<Seq<Seq<char>>, Seq<char>>(e@),
            },
        decreases parsed.len() - i,
    {
        assert(pv[i as int] == parsed_view(parsed@[i as int]));
        match &parsed[i] {
            Ok(paths) => {
                let mut out: Vec<String> = Vec::new();
                let mut k: usize = 0;
                while k < paths.len()
                    invariant
                        k <= paths.len(),
                        out@ == paths@.take(k as int),
                    decreases paths.len() - k,
                {
                    out.push(paths[k].clone());
                    assert(out@ =~= paths@.take(k + 1));
                    k += 1;
                }
                assert(paths@.take(paths.len() as int) =~= paths@);
                proof {
                    let (cr, pr) = (cv.skip(i as int), pv.skip(i as int));
                    assert(cr[0] == cv[i as int]);
                    assert(pr[0] == pv[i as int]);
                    assert(cv[i as int] == candidates@[i as int]@);
                    if i > 0 {
                        lemma_choice_skip(cv, pv, i as int);
                    } else {
                        assert(cr =~= cv);
                        assert(pr =~= pv);
                    }
                }
                return Ok(ValidatedProviderRepairJson { json: candidates[i].clone(), edit_paths: out });
            },
            Err(e) => {
                if first_error.is_none() {
                    first_error = Some(e.clone());
                }
            },
        }
        i += 1;
    }
    let mut m = chars_of("OpenRouter repair response did not match Tau edit/diff contract: ");
    match first_error {
        Some(e) => append_str(&mut m, e.as_str()),
        None => append_str(&mut m, "no JSON object found in provider response"),
    }
    proof {
        if parsed.len() > 0 {
            lemma_choice_skip(cv, pv, parsed.len() as int);
        }
    }
    Err(string_of(&m))
}

// ---------------------------------------------------------------------------
// Metadata path
// ---------------------------------------------------------------------------

/// Drops trailing separators and trailing `.` components, as `Path` does when
/// it takes a path apart; a lone root or leading `.` stays.
pub open spec fn trim_back(s: Seq<char>) -> Seq<char>
    decreases s.len(),
{
    if s.len() > 1 && s.last() == '/' {
        trim_back(s.drop_last())
    } else if s.len() >= 2 && s.last() == '.' && s[s.len() - 2] == '/' {
        trim_back(s.drop_last())
    } else {
        s
    }
}

/// Index of the last `/` in `s`, or -1.
pub open spec fn last_slash(s: Seq<char>) -> int
    decreases s.len(),
{
    if s.len() == 0 {
        -1
    } else if s.last() == '/' {
        s.len() - 1
    } else {
        last_slash(s.drop_last())
    }
}

/// `Path::file_name` with the rest of the path (`Path::parent`), when the last
/// component is a name.
pub open spec fn file_name_split(s: Seq<char>) -> Option<(Seq<char>, Seq<char>)> {
    let t = trim_back(s);
    let k = last_slash(t);
    let last = t.skip(k + 1);
    if t.len() == 0 || last.len() == 0 || last == ".."@ || (last == "."@ && k == -1) {
        None
    } else {
        Some((trim_back(t.take(k + 1)), last))
    }
}

/// `<context file name>.openrouter-call.json` beside the context file.
pub open spec fn metadata_path_spec(context_path: Seq<char>) -> Seq<char> {
    match file_name_split(context_path) {
        Some((parent, name)) => path_join_spec(parent, name + ".openrouter-call.json"@),
        None => path_join_spec(
            context_path,
            "provider-repair-context.json"@ + ".openrouter-call.json"@,
        ),
    }
}

/// `PathBuf::push` of a relative name.
pub open spec fn path_join_spec(base: Seq<char>, rel: Seq<char>) -> Seq<char> {
    crate::self_modification_runtime::path_join(base, rel)
}

fn trim_back_len(s: &[char], n: usize) -> (m: usize)
    requires
        n <= s.len(),
    ensures
        m <= n,
        s@.take(m as int) == trim_back(s@.take(n as int)),
    decreases n,
{
    let ghost t = s@.take(n as int);
    if n > 1 && s[n - 1] == '/' {
        assert(t.drop_last() =~= s@.take(n - 1));
        trim_back_len(s, n - 1)
    } else if n >= 2 && s[n - 1] == '.' && s[n - 2] == '/' {
        assert(t.drop_last() =~= s@.take(n - 1));
        trim_back_len(s, n - 1)
    } else {
        n
    }
}

fn last_slash_exec(s: &[char], n: usize) -> (k: Option<usize>)
    requires
        n <= s.len(),
    ensures
        match k {
            Some(i) => i < n && last_slash(s@.take(n as int)) == i,
            None => last_slash(s@.take(n as int)) == -1,
        },
    decreases n,
{
    if n == 0 {
        None
    } else if s[n - 1] == '/' {
        Some(n - 1)
    } else {
        assert(s@.take(n as int).drop_last() =~= s@.take(n - 1));
        last_slash_exec(s, n - 1)
    }
}

/// Where the adapter records its call, next to the context file.
pub fn metadata_path_for_context(context_path: &str) -> (r: String)
    ensures
        r@ == metadata_path_spec(context_path@),
{
    let s = chars_of(context_path);
    assert(s@.take(s.len() as int) =~= s@);
    let n = trim_back_len(&s, s.len());
    let ghost t = s@.take(n as int);
    let k = last_slash_exec(&s, n);
    let start: usize = match k {
        Some(i) => i + 1,
        None => 0,
    };
    let last = sub_chars(&s, start, n);
    assert(last@ =~= t.skip(last_slash(t) + 1));
    let is_dotdot = last.len() == 2 && last[0] == '.' && last[1] == '.';
    let is_dot = last.len() == 1 && last[0] == '.';
    proof {
        reveal_strlit("..");
        reveal_strlit(".");
        if last@ == ".."@ {
            assert(is_dotdot);
        }
        if last@ == "."@ {
            assert(is_dot);
        }
        if is_dotdot {
            assert(last@ =~= ".."@);
        }
        if is_dot {
            assert(last@ =~= "."@);
        }
    }
    let mut name: Vec<char>;
    let base: Vec<char>;
    if n == 0 || last.len() == 0 || is_dotdot || (is_dot && k.is_none()) {
        base = s;
        name = chars_of("provider-repair-context.json");
    } else {
        let m = trim_back_len(&s, start);
        assert(s@.take(start as int) =~= t.take(start as int));
        proof {
            assert forall|j: int| 0 <= j <= n implies trim_back(s@.take(j)) == trim_back(t.take(j)) by {
                assert(s@.take(j) =~= t.take(j));
            }
        }
        base = sub_chars(&s, 0, m);
        assert(base@ =~= s@.take(m as int));
        name = last;
    }
    append_str(&mut name, ".openrouter-call.json");
    string_of(&crate::self_modification_runtime::path_join_exec(&base, &name))
}

} // verus!
