//! Channel lifecycle of the multi-channel runtime (`status`, `login`,
//! `logout`, `probe` per transport): where secrets come from, the readiness
//! probe, the lifecycle transitions and the report. Files, the credential
//! store and the clock are the caller's.
use vstd::prelude::*;

use crate::self_modification_runtime::{path_join, path_join_exec};
use crate::text::{
    append_chars, append_str, chars_of, decimal, decimal_chars, join, join_strings, string_of,
    string_views, trim, trim_chars,
};

verus! {

pub const MULTI_CHANNEL_LIFECYCLE_STATE_FILE_NAME: &'static str = "channel-lifecycle.json";

pub const MULTI_CHANNEL_LIFECYCLE_STATE_SCHEMA_VERSION: u32 = 1;

pub const TELEGRAM_TOKEN_INTEGRATION_ID: &'static str = "telegram-bot-token";

pub const DISCORD_TOKEN_INTEGRATION_ID: &'static str = "discord-bot-token";

pub const WHATSAPP_TOKEN_INTEGRATION_ID: &'static str = "whatsapp-access-token";

pub const WHATSAPP_PHONE_NUMBER_ID_INTEGRATION_ID: &'static str = "whatsapp-phone-number-id";

/// A messaging transport.
#[derive(Debug, Clone, Copy, PartialEq, Eq, Structural)]
pub enum MultiChannelTransport {
    Telegram,
    Discord,
    Whatsapp,
}

pub open spec fn transport_name(t: MultiChannelTransport) -> Seq<char> {
    match t {
        MultiChannelTransport::Telegram => "telegram"@,
        MultiChannelTransport::Discord => "discord"@,
        MultiChannelTransport::Whatsapp => "whatsapp"@,
    }
}

impl MultiChannelTransport {
    pub fn as_str(self) -> (s: &'static str)
        ensures
            s@ == transport_name(self),
    {
        match self {
            MultiChannelTransport::Telegram => "telegram",
            MultiChannelTransport::Discord => "discord",
            MultiChannelTransport::Whatsapp => "whatsapp",
        }
    }
}

/// A lifecycle action.
#[derive(Debug, Clone, Copy, PartialEq, Eq, Structural)]
pub enum LifecycleActionKind {
    Status,
    Login,
    Logout,
    Probe,
}

pub open spec fn action_name(a: LifecycleActionKind) -> Seq<char> {
    match a {
        LifecycleActionKind::Status => "status"@,
        LifecycleActionKind::Login => "login"@,
        LifecycleActionKind::Logout => "logout"@,
        LifecycleActionKind::Probe => "probe"@,
    }
}

impl LifecycleActionKind {
    pub fn as_str(self) -> (s: &'static str)
        ensures
            s@ == action_name(self),
    {
        match self {
            LifecycleActionKind::Status => "status",
            LifecycleActionKind::Login => "login",
            LifecycleActionKind::Logout => "logout",
            LifecycleActionKind::Probe => "probe",
        }
    }
}

// ---------------------------------------------------------------------------
// Paths
// ---------------------------------------------------------------------------

/// `<state_dir>/security/channel-lifecycle.json`.
pub fn lifecycle_state_path_for_dir(state_dir: &str) -> (r: String)
    ensures
        r@ == path_join(path_join(state_dir@, "security"@), MULTI_CHANNEL_LIFECYCLE_STATE_FILE_NAME@),
{
    let d = chars_of(state_dir);
    let sec = path_join_exec(&d, &chars_of("security"));
    string_of(&path_join_exec(&sec, &chars_of(MULTI_CHANNEL_LIFECYCLE_STATE_FILE_NAME)))
}

/// `<ingress_dir>/<transport>.ndjson`.
pub fn ingress_file_for_transport(ingress_dir: &str, channel: MultiChannelTransport) -> (r: String)
    ensures
        r@ == path_join(ingress_dir@, transport_name(channel) + ".ndjson"@),
{
    let mut name = chars_of(channel.as_str());
    append_str(&mut name, ".ndjson");
    string_of(&path_join_exec(&chars_of(ingress_dir), &name))
}

/// Schema check of the lifecycle state file.
pub fn check_lifecycle_schema(schema_version: u32) -> (r: Result<(), String>)
    ensures
        r is Ok <==> schema_version == MULTI_CHANNEL_LIFECYCLE_STATE_SCHEMA_VERSION,
{
    if schema_version != MULTI_CHANNEL_LIFECYCLE_STATE_SCHEMA_VERSION {
        let mut m = chars_of("unsupported multi-channel lifecycle schema ");
        append_chars(&mut m, &decimal_chars(schema_version as u64));
        return Err(string_of(&m));
    }
    Ok(())
}

// ---------------------------------------------------------------------------
// Secrets
// ---------------------------------------------------------------------------

/// A secret with where it came from.
#[derive(Debug, Clone)]
pub struct ResolvedSecret {
    pub value: Option<String>,
    pub source: String,
    pub credential_store_unreadable: bool,
}

/// An integration record of the credential store.
#[derive(Debug, Clone)]
pub struct CredentialRecord {
    pub secret: Option<String>,
    pub revoked: bool,
}

/// What the credential store says about one integration.
#[derive(Debug, Clone)]
pub enum CredentialStoreLookup {
    /// The store file does not exist.
    StoreMissing,
    /// The store exists but could not be loaded.
    StoreUnreadable,
    /// The store was loaded; the integration's record, if any.
    Loaded(Option<CredentialRecord>),
}

pub open spec fn opt_view(v: Option<String>) -> Option<Seq<char>> {
    match v {
        Some(s) => Some(s@),
        None => None,
    }
}

/// A value given on the command line or in the environment counts when it is not blank.
pub open spec fn cli_value(v: Option<Seq<char>>) -> Option<Seq<char>> {
    match v {
        Some(s) => if trim(s).len() > 0 {
            Some(trim(s))
        } else {
            None
        },
        None => None,
    }
}

/// The secret by precedence: command line or environment, then the credential
/// store (a revoked record gives nothing).
pub open spec fn resolve_secret_spec(direct: Option<Seq<char>>, store: CredentialStoreLookup) -> (
    Option<Seq<char>>,
    Seq<char>,
    bool,
) {
    match cli_value(direct) {
        Some(v) => (Some(v), "cli_or_env"@, false),
        None => match store {
            CredentialStoreLookup::StoreMissing => (None, "missing"@, false),
            CredentialStoreLookup::StoreUnreadable => (None, "credential_store_error"@, true),
            CredentialStoreLookup::Loaded(None) => (None, "missing"@, false),
            CredentialStoreLookup::Loaded(Some(rec)) => if rec.revoked {
                (None, "credential_store_revoked"@, false)
            } else {
                match cli_value(opt_view(rec.secret)) {
                    Some(v) => (Some(v), "credential_store"@, false),
                    None => (None, "missing"@, false),
                }
            },
        },
    }
}

pub open spec fn secret_view(s: ResolvedSecret) -> (Option<Seq<char>>, Seq<char>, bool) {
    (opt_view(s.value), s.source@, s.credential_store_unreadable)
}

fn non_blank(v: Option<&str>) -> (r: Option<String>)
    ensures
        opt_view(r) == cli_value(
            match v {
                Some(s) => Some(s@),
                None => None,
            },
        ),
{
    match v {
        Some(s) => {
            let t = trim_chars(&chars_of(s));
            if t.len() > 0 {
                Some(string_of(&t))
            } else {
                None
            }
        },
        None => None,
    }
}

fn secret(value: Option<String>, source: &str, unreadable: bool) -> (r: ResolvedSecret)
    ensures
        secret_view(r) == (opt_view(value), source@, unreadable),
{
    ResolvedSecret { value, source: String::from_str(source), credential_store_unreadable: unreadable }
}

/// Resolves a channel secret.
pub fn resolve_lifecycle_secret(direct_secret: Option<&str>, store: &CredentialStoreLookup) -> (r:
    ResolvedSecret)
    ensures
        secret_view(r) == resolve_secret_spec(
            match direct_secret {
                Some(s) => Some(s@),
                None => None,
            },
            *store,
        ),
{
    match non_blank(direct_secret) {
        Some(v) => secret(Some(v), "cli_or_env", false),
        None => match store {
            CredentialStoreLookup::StoreMissing => secret(None, "missing", false),
            CredentialStoreLookup::StoreUnreadable => secret(None, "credential_store_error", true),
            CredentialStoreLookup::Loaded(None) => secret(None, "missing", false),
            CredentialStoreLookup::Loaded(Some(rec)) => {
                if rec.revoked {
                    secret(None, "credential_store_revoked", false)
                } else {
                    let sv: Option<&str> = match &rec.secret {
                        Some(s) => Some(s.as_str()),
                        None => None,
                    };
                    match non_blank(sv) {
                        Some(v) => secret(Some(v), "credential_store", false),
                        None => secret(None, "missing", false),
                    }
                }
            },
        },
    }
}

// ---------------------------------------------------------------------------
// Readiness
// ---------------------------------------------------------------------------

/// The readiness of a channel.
#[derive(Debug, Clone)]
pub struct ChannelReadiness {
    pub readiness_status: String,
    pub reason_codes: Vec<String>,
    pub ingress_file: String,
    pub ingress_exists: bool,
    pub ingress_is_file: bool,
    pub token_source: String,
    pub phone_number_source: String,
}

/// The codes contributed by one secret.
pub open spec fn secret_codes(s: ResolvedSecret, missing_code: Seq<char>) -> Seq<Seq<char>> {
    (if s.credential_store_unreadable {
        seq!["credential_store_unreadable"@]
    } else {
        seq![]
    }) + (if s.value is None {
        seq![missing_code]
    } else {
        seq![]
    })
}

pub open spec fn token_missing_code(channel: MultiChannelTransport) -> Seq<char> {
    match channel {
        MultiChannelTransport::Telegram => "missing_telegram_bot_token"@,
        MultiChannelTransport::Discord => "missing_discord_bot_token"@,
        MultiChannelTransport::Whatsapp => "missing_whatsapp_access_token"@,
    }
}

/// The ingress codes: a required ingress file must exist and be a file; an
/// optional one only must not be something else.
pub open spec fn ingress_codes(exists: bool, is_file: bool, required: bool) -> Seq<Seq<char>> {
    if required {
        if !exists {
            seq!["ingress_missing"@]
        } else if !is_file {
            seq!["ingress_not_file"@]
        } else {
            seq![]
        }
    } else if exists && !is_file {
        seq!["ingress_not_file"@]
    } else {
        seq![]
    }
}

/// All problems found for the channel, in order.
pub open spec fn readiness_problems(
    channel: MultiChannelTransport,
    token: ResolvedSecret,
    phone: ResolvedSecret,
    exists: bool,
    is_file: bool,
    required: bool,
) -> Seq<Seq<char>> {
    secret_codes(token, token_missing_code(channel)) + (if channel
        == MultiChannelTransport::Whatsapp {
        secret_codes(phone, "missing_whatsapp_phone_number_id"@)
    } else {
        seq![]
    }) + ingress_codes(exists, is_file, required)
}

/// Readiness: `pass` with code `ready` when nothing is wrong, else `fail` with
/// the problems; the phone-number source only matters for WhatsApp.
pub open spec fn readiness_spec(
    channel: MultiChannelTransport,
    token: ResolvedSecret,
    phone: ResolvedSecret,
    ingress_file: Seq<char>,
    exists: bool,
    is_file: bool,
    required: bool,
    r: ChannelReadiness,
) -> bool {
    let problems = readiness_problems(channel, token, phone, exists, is_file, required);
    &&& r.readiness_status@ == (if problems.len() == 0 {
        "pass"@
    } else {
        "fail"@
    })
    &&& string_views(r.reason_codes@) == (if problems.len() == 0 {
        seq!["ready"@]
    } else {
        problems
    })
    &&& r.ingress_file@ == ingress_file
    &&& r.ingress_exists == exists
    &&& r.ingress_is_file == is_file
    &&& r.token_source@ == token.source@
    &&& r.phone_number_source@ == (if channel == MultiChannelTransport::Whatsapp {
        phone.source@
    } else {
        "not_required"@
    })
}

fn push_code(v: &mut Vec<String>, code: &str)
    ensures
        string_views(final(v)@) == string_views(old(v)@).push(code@),
{
    let ghost before = v@;
    v.push(String::from_str(code));
    assert(string_views(v@) =~= string_views(before).push(code@));
}

fn push_secret_codes(v: &mut Vec<String>, s: &ResolvedSecret, missing_code: &str)
    ensures
        string_views(final(v)@) == string_views(old(v)@) + secret_codes(*s, missing_code@),
{
    let ghost start = string_views(v@);
    if s.credential_store_unreadable {
        push_code(v, "credential_store_unreadable");
    }
    let ghost mid = string_views(v@);
    if s.value.is_none() {
        push_code(v, missing_code);
    }
    assert(string_views(v@) =~= start + secret_codes(*s, missing_code@));
}

/// Probes a channel. `phone` is the WhatsApp phone-number secret (ignored for
/// the other transports); the ingress facts are read by the caller.
pub fn probe_channel_readiness(
    channel: MultiChannelTransport,
    token: &ResolvedSecret,
    phone: &ResolvedSecret,
    ingress_file: String,
    ingress_exists: bool,
    ingress_is_file: bool,
    require_ingress_file: bool,
) -> (r: ChannelReadiness)
    ensures
        readiness_spec(
            channel,
            *token,
            *phone,
            ingress_file@,
            ingress_exists,
            ingress_is_file,
            require_ingress_file,
            r,
        ),
{
    let mut codes: Vec<String> = Vec::new();
    assert(string_views(codes@) =~= Seq::<Seq<char>>::empty());
    let missing = match channel {
        MultiChannelTransport::Telegram => "missing_telegram_bot_token",
        MultiChannelTransport::Discord => "missing_discord_bot_token",
        MultiChannelTransport::Whatsapp => "missing_whatsapp_access_token",
    };
    push_secret_codes(&mut codes, token, missing);
    let ghost after_token = string_views(codes@);
    let phone_source = match channel {
        MultiChannelTransport::Whatsapp => {
            push_secret_codes(&mut codes, phone, "missing_whatsapp_phone_number_id");
            phone.source.clone()
        },
        _ => String::from_str("not_required"),
    };
    let ghost after_phone = string_views(codes@);
    if require_ingress_file {
        if !ingress_exists {
            push_code(&mut codes, "ingress_missing");
        } else if !ingress_is_file {
            push_code(&mut codes, "ingress_not_file");
        }
    } else if ingress_exists && !ingress_is_file {
        push_code(&mut codes, "ingress_not_file");
    }
    assert(string_views(codes@) =~= readiness_problems(
        channel,
        *token,
        *phone,
        ingress_exists,
        ingress_is_file,
        require_ingress_file,
    ));
    let pass = codes.len() == 0;
    let reason_codes = if pass {
        let mut v: Vec<String> = Vec::new();
        push_code(&mut v, "ready");
        assert(string_views(v@) =~= seq!["ready"@]);
        v
    } else {
        codes
    };
    ChannelReadiness {
        readiness_status: String::from_str(
            if pass {
                "pass"
            } else {
                "fail"
            },
        ),
        reason_codes,
        ingress_file,
        ingress_exists,
        ingress_is_file,
        token_source: token.source.clone(),
        phone_number_source: phone_source,
    }
}

/// A readiness passes exactly when its only code is `ready`.
pub proof fn lemma_pass_iff_ready(
    channel: MultiChannelTransport,
    token: ResolvedSecret,
    phone: ResolvedSecret,
    ingress_file: Seq<char>,
    exists: bool,
    is_file: bool,
    required: bool,
    r: ChannelReadiness,
)
    requires
        readiness_spec(channel, token, phone, ingress_file, exists, is_file, required, r),
    ensures
        (r.readiness_status@ == "pass"@) <==> (string_views(r.reason_codes@) == seq!["ready"@]),
{
    reveal_strlit("pass");
    reveal_strlit("fail");
    reveal_strlit("ready");
    reveal_strlit("credential_store_unreadable");
    reveal_strlit("missing_telegram_bot_token");
    reveal_strlit("missing_discord_bot_token");
    reveal_strlit("missing_whatsapp_access_token");
    reveal_strlit("missing_whatsapp_phone_number_id");
    reveal_strlit("ingress_missing");
    reveal_strlit("ingress_not_file");
    let problems = readiness_problems(channel, token, phone, exists, is_file, required);
    if problems.len() != 0 {
        assert("pass"@ != "fail"@) by {
            assert("pass"@[0] != "fail"@[0]);
        }
        if problems == seq!["ready"@] {
            // No problem code spells `ready`.
            let p0 = problems[0];
            assert(p0 == "ready"@);
            assert(p0.len() == 5);
        }
    }
}

// ---------------------------------------------------------------------------
// Lifecycle transitions
// ---------------------------------------------------------------------------

/// One channel's row of the lifecycle state file.
#[derive(Debug, Clone, Default)]
pub struct MultiChannelLifecycleChannelState {
    pub lifecycle_status: String,
    pub reason_codes: Vec<String>,
    pub last_action: String,
    pub last_updated_unix_ms: u64,
    pub last_login_unix_ms: u64,
    pub last_logout_unix_ms: u64,
    pub last_probe_unix_ms: u64,
}

/// What an action decides.
#[derive(Debug, Clone)]
pub struct LifecycleDecision {
    pub lifecycle_status: String,
    pub reason_codes: Vec<String>,
    /// Whether the ingress file must be created before the state is saved.
    pub ensure_ingress_file: bool,
    /// Whether the state file is written.
    pub persist: bool,
}

/// The prior status, or `unknown` when the row has none.
pub open spec fn prior_status(existing: Seq<char>) -> Seq<char> {
    if trim(existing).len() == 0 {
        "unknown"@
    } else {
        existing
    }
}

/// The transitions: `status` reports without writing; `login` initialises a
/// ready channel (creating its ingress file) and otherwise fails; `logout`
/// always logs out; `probe` records `ready` or `probe_failed`.
pub open spec fn decision_spec(
    action: LifecycleActionKind,
    existing_status: Seq<char>,
    readiness_pass: bool,
    readiness_codes: Seq<Seq<char>>,
    d: LifecycleDecision,
) -> bool {
    let codes = string_views(d.reason_codes@);
    match action {
        LifecycleActionKind::Status => d.lifecycle_status@ == prior_status(existing_status)
            && codes == readiness_codes && !d.persist && !d.ensure_ingress_file,
        LifecycleActionKind::Login => if readiness_pass {
            d.lifecycle_status@ == "initialized"@ && codes == seq!["ready"@] && d.persist
                && d.ensure_ingress_file
        } else {
            d.lifecycle_status@ == "login_failed"@ && codes == readiness_codes && d.persist
                && !d.ensure_ingress_file
        },
        LifecycleActionKind::Logout => d.lifecycle_status@ == "logged_out"@ && codes == seq![
            "logout_requested"@,
        ] && d.persist && !d.ensure_ingress_file,
        LifecycleActionKind::Probe => d.lifecycle_status@ == (if readiness_pass {
            "ready"@
        } else {
            "probe_failed"@
        }) && codes == readiness_codes && d.persist && !d.ensure_ingress_file,
    }
}

fn clone_codes(v: &Vec<String>) -> (r: Vec<String>)
    ensures
        string_views(r@) == string_views(v@),
{
    let mut r: Vec<String> = Vec::new();
    let mut i: usize = 0;
    while i < v.len()
        invariant
            i <= v.len(),
            string_views(r@) == string_views(v@).take(i as int),
        decreases v.len() - i,
    {
        let s = v[i].clone();
        let ghost before = r@;
        r.push(s);
        assert(string_views(r@) =~= string_views(before).push(v@[i as int]@));
        assert(string_views(r@) =~= string_views(v@).take(i + 1));
        i += 1;
    }
    assert(string_views(v@).take(v.len() as int) =~= string_views(v@));
    r
}

fn one_code(code: &str) -> (r: Vec<String>)
    ensures
        string_views(r@) == seq![code@],
{
    let mut v: Vec<String> = Vec::new();
    push_code(&mut v, code);
    assert(string_views(v@) =~= seq![code@]);
    v
}

/// Decides an action from the row's prior status and the readiness probe.
pub fn decide_lifecycle_action(
    action: LifecycleActionKind,
    existing_status: &str,
    readiness: &ChannelReadiness,
) -> (d: LifecycleDecision)
    ensures
        decision_spec(
            action,
            existing_status@,
            readiness.readiness_status@ == "pass"@,
            string_views(readiness.reason_codes@),
            d,
        ),
{
    let pass = crate::text::chars_eq_str(&chars_of(readiness.readiness_status.as_str()), "pass");
    match action {
        LifecycleActionKind::Status => {
            let t = trim_chars(&chars_of(existing_status));
            let status = if t.len() == 0 {
                String::from_str("unknown")
            } else {
                String::from_str(existing_status)
            };
            LifecycleDecision {
                lifecycle_status: status,
                reason_codes: clone_codes(&readiness.reason_codes),
                ensure_ingress_file: false,
                persist: false,
            }
        },
        LifecycleActionKind::Login => {
            if pass {
                LifecycleDecision {
                    lifecycle_status: String::from_str("initialized"),
                    reason_codes: one_code("ready"),
                    ensure_ingress_file: true,
                    persist: true,
                }
            } else {
                LifecycleDecision {
                    lifecycle_status: String::from_str("login_failed"),
                    reason_codes: clone_codes(&readiness.reason_codes),
                    ensure_ingress_file: false,
                    persist: true,
                }
            }
        },
        LifecycleActionKind::Logout => LifecycleDecision {
            lifecycle_status: String::from_str("logged_out"),
            reason_codes: one_code("logout_requested"),
            ensure_ingress_file: false,
            persist: true,
        },
        LifecycleActionKind::Probe => LifecycleDecision {
            lifecycle_status: String::from_str(
                if pass {
                    "ready"
                } else {
                    "probe_failed"
                },
            ),
            reason_codes: clone_codes(&readiness.reason_codes),
            ensure_ingress_file: false,
            persist: true,
        },
    }
}

/// The row after a persisted action at time `now`: status, codes, action and
/// update time, plus the action's own timestamp; other timestamps are kept.
pub open spec fn updated_row_spec(
    old: MultiChannelLifecycleChannelState,
    action: LifecycleActionKind,
    d: LifecycleDecision,
    now: u64,
    new: MultiChannelLifecycleChannelState,
) -> bool {
    &&& new.lifecycle_status@ == d.lifecycle_status@
    &&& string_views(new.reason_codes@) == string_views(d.reason_codes@)
    &&& new.last_action@ == action_name(action)
    &&& new.last_updated_unix_ms == now
    &&& new.last_login_unix_ms == (if action == LifecycleActionKind::Login {
        now
    } else {
        old.last_login_unix_ms
    })
    &&& new.last_logout_unix_ms == (if action == LifecycleActionKind::Logout {
        now
    } else {
        old.last_logout_unix_ms
    })
    &&& new.last_probe_unix_ms == (if action == LifecycleActionKind::Probe {
        now
    } else {
        old.last_probe_unix_ms
    })
}

/// Writes a decision into the channel's row.
pub fn apply_lifecycle_decision(
    row: MultiChannelLifecycleChannelState,
    action: LifecycleActionKind,
    decision: &LifecycleDecision,
    now_unix_ms: u64,
) -> (r: MultiChannelLifecycleChannelState)
    ensures
        updated_row_spec(row, action, *decision, now_unix_ms, r),
{
    MultiChannelLifecycleChannelState {
        lifecycle_status: decision.lifecycle_status.clone(),
        reason_codes: clone_codes(&decision.reason_codes),
        last_action: String::from_str(action.as_str()),
        last_updated_unix_ms: now_unix_ms,
        last_login_unix_ms: if action == LifecycleActionKind::Login {
            now_unix_ms
        } else {
            row.last_login_unix_ms
        },
        last_logout_unix_ms: if action == LifecycleActionKind::Logout {
            now_unix_ms
        } else {
            row.last_logout_unix_ms
        },
        last_probe_unix_ms: if action == LifecycleActionKind::Probe {
            now_unix_ms
        } else {
            row.last_probe_unix_ms
        },
    }
}

/// `status` changes nothing on disk, and `logout` always ends logged out with
/// `logout_requested`, whatever the readiness.
/// A login initialises the channel exactly when its readiness probe passed; a
/// login that did not pass is recorded as `login_failed` with the probe's
/// codes. Either way the login is persisted. A probe likewise records `ready`
/// exactly when readiness passed, and `probe_failed` otherwise.
pub proof fn lemma_login_and_probe_follow_readiness(
    existing_status: Seq<char>,
    pass: bool,
    codes: Seq<Seq<char>>,
    login: LifecycleDecision,
    probe: LifecycleDecision,
)
    requires
        decision_spec(LifecycleActionKind::Login, existing_status, pass, codes, login),
        decision_spec(LifecycleActionKind::Probe, existing_status, pass, codes, probe),
    ensures
        login.persist,
        (login.lifecycle_status@ == "initialized"@) <==> pass,
        login.ensure_ingress_file <==> pass,
        !pass ==> login.lifecycle_status@ == "login_failed"@ && string_views(login.reason_codes@)
            == codes,
        pass ==> string_views(login.reason_codes@) == seq!["ready"@],
        probe.persist && !probe.ensure_ingress_file,
        (probe.lifecycle_status@ == "ready"@) <==> pass,
        !pass ==> probe.lifecycle_status@ == "probe_failed"@,
        string_views(probe.reason_codes@) == codes,
{
    reveal_strlit("initialized");
    reveal_strlit("login_failed");
    reveal_strlit("ready");
    reveal_strlit("probe_failed");
    assert("initialized"@.len() != "login_failed"@.len());
    assert("ready"@.len() != "probe_failed"@.len());
}

pub proof fn lemma_status_is_read_only_and_logout_always_logs_out(
    existing_status: Seq<char>,
    pass: bool,
    codes: Seq<Seq<char>>,
    d: LifecycleDecision,
    e: LifecycleDecision,
)
    requires
        decision_spec(LifecycleActionKind::Status, existing_status, pass, codes, d),
        decision_spec(LifecycleActionKind::Logout, existing_status, pass, codes, e),
    ensures
        !d.persist && !d.ensure_ingress_file,
        e.persist && e.lifecycle_status@ == "logged_out"@ && string_views(e.reason_codes@)
            == seq!["logout_requested"@],
{
}

// ---------------------------------------------------------------------------
// Report
// ---------------------------------------------------------------------------

/// The result of an action as reported to the operator.
#[derive(Debug, Clone)]
pub struct MultiChannelLifecycleReport {
    pub action: String,
    pub channel: String,
    pub lifecycle_status: String,
    pub readiness_status: String,
    pub reason_codes: Vec<String>,
    pub ingress_file: String,
    pub ingress_exists: bool,
    pub ingress_is_file: bool,
    pub token_source: String,
    pub phone_number_source: String,
    pub state_path: String,
    pub state_persisted: bool,
    pub updated_unix_ms: u64,
}

/// The report of an action: the decision's status and codes, the probe's
/// facts, and an ingress file that exists once a login created it.
pub fn build_lifecycle_report(
    action: LifecycleActionKind,
    channel: MultiChannelTransport,
    readiness: ChannelReadiness,
    decision: &LifecycleDecision,
    state_path: String,
    now_unix_ms: u64,
) -> (r: MultiChannelLifecycleReport)
    ensures
        r.action@ == action_name(action),
        r.channel@ == transport_name(channel),
        r.lifecycle_status@ == decision.lifecycle_status@,
        r.readiness_status@ == readiness.readiness_status@,
        string_views(r.reason_codes@) == string_views(decision.reason_codes@),
        r.ingress_file == readiness.ingress_file,
        r.ingress_exists == (decision.ensure_ingress_file || readiness.ingress_exists),
        r.ingress_is_file == (decision.ensure_ingress_file || readiness.ingress_is_file),
        r.token_source == readiness.token_source,
        r.phone_number_source == readiness.phone_number_source,
        r.state_path == state_path,
        r.state_persisted == decision.persist,
        r.updated_unix_ms == now_unix_ms,
{
    MultiChannelLifecycleReport {
        action: String::from_str(action.as_str()),
        channel: String::from_str(channel.as_str()),
        lifecycle_status: decision.lifecycle_status.clone(),
        readiness_status: readiness.readiness_status,
        reason_codes: clone_codes(&decision.reason_codes),
        ingress_file: readiness.ingress_file,
        ingress_exists: decision.ensure_ingress_file || readiness.ingress_exists,
        ingress_is_file: decision.ensure_ingress_file || readiness.ingress_is_file,
        token_source: readiness.token_source,
        phone_number_source: readiness.phone_number_source,
        state_path,
        state_persisted: decision.persist,
        updated_unix_ms: now_unix_ms,
    }
}

pub open spec fn bool_text(b: bool) -> Seq<char> {
    if b {
        "true"@
    } else {
        "false"@
    }
}

/// One line: every field as `key=value`; no codes read `none`.
pub open spec fn report_line(r: MultiChannelLifecycleReport) -> Seq<char> {
    let codes = if r.reason_codes@.len() == 0 {
        "none"@
    } else {
        join(string_views(r.reason_codes@), ","@)
    };
    "multi-channel lifecycle: action="@ + r.action@ + " channel="@ + r.channel@
        + " lifecycle_status="@ + r.lifecycle_status@ + " readiness_status="@
        + r.readiness_status@ + " reason_codes="@ + codes + " ingress_file="@ + r.ingress_file@
        + " ingress_exists="@ + bool_text(r.ingress_exists) + " ingress_is_file="@ + bool_text(
        r.ingress_is_file,
    ) + " token_source="@ + r.token_source@ + " phone_number_source="@
        + r.phone_number_source@ + " state_path="@ + r.state_path@ + " state_persisted="@
        + bool_text(r.state_persisted) + " updated_unix_ms="@ + decimal(r.updated_unix_ms as nat)
}

fn push_bool(out: &mut Vec<char>, b: bool)
    ensures
        final(out)@ == old(out)@ + bool_text(b),
{
    if b {
        append_str(out, "true");
    } else {
        append_str(out, "false");
    }
}

/// Renders the text form of a report.
pub fn render_multi_channel_lifecycle_report(report: &MultiChannelLifecycleReport) -> (s: String)
    ensures
        s@ == report_line(*report),
{
    let codes = if report.reason_codes.len() == 0 {
        chars_of("none")
    } else {
        join_strings(&report.reason_codes, ",")
    };
    let mut out = chars_of("multi-channel lifecycle: action=");
    append_str(&mut out, report.action.as_str());
    append_str(&mut out, " channel=");
    append_str(&mut out, report.channel.as_str());
    append_str(&mut out, " lifecycle_status=");
    append_str(&mut out, report.lifecycle_status.as_str());
    append_str(&mut out, " readiness_status=");
    append_str(&mut out, report.readiness_status.as_str());
    append_str(&mut out, " reason_codes=");
    append_chars(&mut out, &codes);
    append_str(&mut out, " ingress_file=");
    append_str(&mut out, report.ingress_file.as_str());
    append_str(&mut out, " ingress_exists=");
    push_bool(&mut out, report.ingress_exists);
    append_str(&mut out, " ingress_is_file=");
    push_bool(&mut out, report.ingress_is_file);
    append_str(&mut out, " token_source=");
    append_str(&mut out, report.token_source.as_str());
    append_str(&mut out, " phone_number_source=");
    append_str(&mut out, report.phone_number_source.as_str());
    append_str(&mut out, " state_path=");
    append_str(&mut out, report.state_path.as_str());
    append_str(&mut out, " state_persisted=");
    push_bool(&mut out, report.state_persisted);
    append_str(&mut out, " updated_unix_ms=");
    append_chars(&mut out, &decimal_chars(report.updated_unix_ms));
    string_of(&out)
}

} // verus!
