//! The multi-channel contract runner: the order in which inbound events are
//! queued, the bounded set of processed event keys, the retry schedule and the
//! per-attempt decisions, and the response text. Reading fixtures, writing the
//! channel store and sleeping between attempts are the caller's.
use vstd::prelude::*;

use crate::multi_channel_lifecycle::{MultiChannelTransport, transport_name};
use crate::self_modification_runtime::{path_join, path_join_exec};
use crate::text::{
    append_chars, append_str, chars_eq, chars_of, decimal, decimal_chars, starts_with, str_eq,
    string_of, string_views, trim, trim_chars,
};

verus! {

pub const MULTI_CHANNEL_RUNTIME_STATE_SCHEMA_VERSION: u32 = 1;

pub const MULTI_CHANNEL_RUNTIME_STATE_FILE_NAME: &'static str = "state.json";

pub fn multi_channel_runtime_state_schema_version() -> (v: u32)
    ensures
        v == MULTI_CHANNEL_RUNTIME_STATE_SCHEMA_VERSION,
{
    MULTI_CHANNEL_RUNTIME_STATE_SCHEMA_VERSION
}

// ---------------------------------------------------------------------------
// Ordering of event keys
// ---------------------------------------------------------------------------

/// Lexicographic order of character sequences by code point, the order in
/// which `String`'s `Ord` puts UTF-8 strings.
pub open spec fn chars_lt(a: Seq<char>, b: Seq<char>) -> bool
    decreases a.len(),
{
    if a.len() == 0 {
        b.len() > 0
    } else if b.len() == 0 {
        false
    } else if a[0] != b[0] {
        a[0] < b[0]
    } else {
        chars_lt(a.drop_first(), b.drop_first())
    }
}

pub proof fn lemma_chars_lt_irreflexive(a: Seq<char>)
    ensures
        !chars_lt(a, a),
    decreases a.len(),
{
    if a.len() > 0 {
        lemma_chars_lt_irreflexive(a.drop_first());
    }
}

pub proof fn lemma_chars_lt_transitive(a: Seq<char>, b: Seq<char>, c: Seq<char>)
    requires
        chars_lt(a, b),
        chars_lt(b, c),
    ensures
        chars_lt(a, c),
    decreases a.len(),
{
    if a.len() > 0 && b.len() > 0 && c.len() > 0 {
        if a[0] == b[0] && b[0] == c[0] {
            lemma_chars_lt_transitive(a.drop_first(), b.drop_first(), c.drop_first());
        }
    }
}

pub proof fn lemma_chars_lt_total(a: Seq<char>, b: Seq<char>)
    requires
        a != b,
    ensures
        chars_lt(a, b) || chars_lt(b, a),
    decreases a.len(),
{
    if a.len() == 0 {
        assert(b.len() > 0) by {
            if b.len() == 0 {
                assert(a =~= b);
            }
        }
    } else if b.len() > 0 && a[0] == b[0] {
        if a.drop_first() == b.drop_first() {
            assert(a =~= b) by {
                assert(a.len() == a.drop_first().len() + 1);
                assert(b.len() == b.drop_first().len() + 1);
                assert forall|i: int| 0 <= i < a.len() implies a[i] == b[i] by {
                    if i > 0 {
                        assert(a[i] == a.drop_first()[i - 1]);
                        assert(b[i] == b.drop_first()[i - 1]);
                    }
                }
            }
        }
        lemma_chars_lt_total(a.drop_first(), b.drop_first());
    }
}

/// `chars_lt(a, b)`.
pub fn chars_less(a: &[char], b: &[char]) -> (r: bool)
    ensures
        r == chars_lt(a@, b@),
{
    let mut i: usize = 0;
    assert(a@.skip(0) =~= a@);
    assert(b@.skip(0) =~= b@);
    while i < a.len() && i < b.len() && a[i] == b[i]
        invariant
            i <= a.len(),
            i <= b.len(),
            chars_lt(a@.skip(i as int), b@.skip(i as int)) == chars_lt(a@, b@),
        decreases a.len() - i,
    {
        assert(a@.skip(i as int).drop_first() =~= a@.skip(i + 1));
        assert(b@.skip(i as int).drop_first() =~= b@.skip(i + 1));
        i += 1;
    }
    if i == a.len() {
        i < b.len()
    } else if i == b.len() {
        false
    } else {
        a[i] < b[i]
    }
}

// ---------------------------------------------------------------------------
// Event queue
// ---------------------------------------------------------------------------

/// What the queue orders an inbound event by: its timestamp and its contract key.
#[derive(Debug, Clone)]
pub struct QueueEntry {
    pub timestamp_ms: u64,
    pub event_key: String,
}

/// Entry `i` goes before entry `j`: earlier timestamp, then smaller key, and
/// on a tie the one that came first (the sort is stable).
pub open spec fn queue_before(e: Seq<QueueEntry>, i: int, j: int) -> bool {
    let (ti, tj) = (e[i].timestamp_ms, e[j].timestamp_ms);
    let (ki, kj) = (e[i].event_key@, e[j].event_key@);
    ||| ti < tj
    ||| (ti == tj && chars_lt(ki, kj))
    ||| (ti == tj && ki == kj && i < j)
}

pub proof fn lemma_queue_before_irreflexive(e: Seq<QueueEntry>, i: int)
    ensures
        !queue_before(e, i, i),
{
    lemma_chars_lt_irreflexive(e[i].event_key@);
}

pub proof fn lemma_queue_before_transitive(e: Seq<QueueEntry>, i: int, j: int, k: int)
    requires
        queue_before(e, i, j),
        queue_before(e, j, k),
    ensures
        queue_before(e, i, k),
{
    let (ki, kj, kk) = (e[i].event_key@, e[j].event_key@, e[k].event_key@);
    if chars_lt(ki, kj) && chars_lt(kj, kk) {
        lemma_chars_lt_transitive(ki, kj, kk);
    }
}

pub proof fn lemma_queue_before_total(e: Seq<QueueEntry>, i: int, j: int)
    requires
        i != j,
    ensures
        queue_before(e, i, j) || queue_before(e, j, i),
{
    let (ki, kj) = (e[i].event_key@, e[j].event_key@);
    if ki != kj {
        lemma_chars_lt_total(ki, kj);
    }
}

/// `queue_before(entries, i, j)`.
fn entry_before(entries: &Vec<QueueEntry>, i: usize, j: usize) -> (r: bool)
    requires
        i < entries.len(),
        j < entries.len(),
    ensures
        r == queue_before(entries@, i as int, j as int),
{
    let (ti, tj) = (entries[i].timestamp_ms, entries[j].timestamp_ms);
    if ti != tj {
        return ti < tj;
    }
    let ki = chars_of(entries[i].event_key.as_str());
    let kj = chars_of(entries[j].event_key.as_str());
    if chars_less(&ki, &kj) {
        return true;
    }
    if chars_eq(&ki, &kj) {
        return i < j;
    }
    false
}

/// The indices `0..n` sorted by `queue_before`.
pub open spec fn sorted_by_queue(e: Seq<QueueEntry>, s: Seq<usize>) -> bool {
    forall|a: int, b: int|
        #![trigger s[a], s[b]]
        0 <= a < b < s.len() ==> queue_before(e, s[a] as int, s[b] as int)
}

/// The queue of one run: the entries sorted by timestamp and then key (stable),
/// cut to `queue_limit`. The result holds indices into `entries`.
pub fn order_event_queue(entries: &Vec<QueueEntry>, queue_limit: usize) -> (order: Vec<usize>)
    ensures
        order.len() == if entries.len() < queue_limit { entries.len() } else { queue_limit },
        forall|j: int| 0 <= j < order.len() ==> order[j] < entries.len(),
        sorted_by_queue(entries@, order@),
        forall|i: usize, j: int|
            i < entries.len() && !order@.contains(i) && 0 <= j < order.len()
                ==> queue_before(entries@, order[j] as int, i as int),
        entries.len() <= queue_limit ==> forall|i: usize| i < entries.len() ==> order@.contains(i),
{
    let n = entries.len();
    let mut s: Vec<usize> = Vec::new();
    let mut i: usize = 0;
    while i < n
        invariant
            i <= n,
            n == entries.len(),
            s.len() == i,
            forall|j: int| 0 <= j < s.len() ==> s[j] < i,
            forall|k: usize| k < i ==> s@.contains(k),
            sorted_by_queue(entries@, s@),
        decreases n - i,
    {
        let mut p: usize = 0;
        while p < s.len() && entry_before(entries, s[p], i)
            invariant
                p <= s.len(),
                i < n,
                n == entries.len(),
                forall|j: int| 0 <= j < s.len() ==> s[j] < i,
                forall|j: int| 0 <= j < p ==> queue_before(entries@, s[j] as int, i as int),
            decreases s.len() - p,
        {
            p += 1;
        }
        let ghost old_s = s@;
        proof {
            if p < old_s.len() {
                lemma_queue_before_total(entries@, old_s[p as int] as int, i as int);
                assert forall|j: int| p <= j < old_s.len() implies queue_before(
                    entries@,
                    i as int,
                    old_s[j] as int,
                ) by {
                    if j > p {
                        assert(queue_before(entries@, old_s[p as int] as int, old_s[j] as int));
                        lemma_queue_before_transitive(
                            entries@,
                            i as int,
                            old_s[p as int] as int,
                            old_s[j] as int,
                        );
                    }
                }
            }
        }
        s.insert(p, i);
        proof {
            let ns = s@;
            assert(ns.len() == old_s.len() + 1);
            assert forall|j: int| 0 <= j < ns.len() implies ns[j] == (if j < p {
                old_s[j]
            } else if j == p {
                i
            } else {
                old_s[j - 1]
            }) by {}
            assert forall|a: int, b: int| 0 <= a < b < ns.len() implies queue_before(
                entries@,
                ns[a] as int,
                ns[b] as int,
            ) by {
                if b < p {
                    assert(queue_before(entries@, old_s[a] as int, old_s[b] as int));
                } else if b == p {
                } else if a < p {
                    assert(queue_before(entries@, old_s[a] as int, old_s[b - 1] as int));
                } else if a == p {
                } else {
                    assert(queue_before(entries@, old_s[a - 1] as int, old_s[b - 1] as int));
                }
            }
            assert forall|k: usize| k < i + 1 implies ns.contains(k) by {
                if k == i {
                    assert(ns[p as int] == i);
                } else {
                    assert(old_s.contains(k));
                    let w = choose|w: int| 0 <= w < old_s.len() && old_s[w] == k;
                    if w < p {
                        assert(ns[w] == k);
                    } else {
                        assert(ns[w + 1] == k);
                    }
                }
            }
        }
        i += 1;
    }
    let ghost full = s@;
    s.truncate(queue_limit);
    proof {
        assert forall|k: usize, j: int|
            k < n && !s@.contains(k) && 0 <= j < s.len() implies queue_before(
            entries@,
            s[j] as int,
            k as int,
        ) by {
            assert(full.contains(k));
            let w = choose|w: int| 0 <= w < full.len() && full[w] == k;
            if w < s.len() {
                assert(s@[w] == k);
            }
            assert(full[j] == s@[j]);
            assert(queue_before(entries@, full[j] as int, full[w] as int));
        }
        if n <= queue_limit {
            assert(s@ =~= full);
        }
    }
    s
}


/// The four clauses that make `order` the queue of a run over `entries`.
pub open spec fn is_event_queue(e: Seq<QueueEntry>, queue_limit: usize, order: Seq<usize>) -> bool {
    &&& order.len() == if e.len() < queue_limit { e.len() } else { queue_limit as nat }
    &&& forall|j: int| 0 <= j < order.len() ==> order[j] < e.len()
    &&& sorted_by_queue(e, order)
    &&& forall|i: usize, j: int|
        i < e.len() && !order.contains(i) && 0 <= j < order.len() ==> queue_before(
            e,
            order[j] as int,
            i as int,
        )
}

// ---------------------------------------------------------------------------
// Processed event keys
// ---------------------------------------------------------------------------

/// The trimmed, non-empty keys of `raw`, each once, in order of first appearance.
pub open spec fn distinct_trimmed_keys(raw: Seq<Seq<char>>) -> Seq<Seq<char>>
    decreases raw.len(),
{
    if raw.len() == 0 {
        seq![]
    } else {
        let prev = distinct_trimmed_keys(raw.drop_last());
        let t = trim(raw.last());
        if t.len() == 0 || prev.contains(t) {
            prev
        } else {
            prev.push(t)
        }
    }
}

/// The last `cap` elements of `s` (all of them when there are fewer).
pub open spec fn keep_last(s: Seq<Seq<char>>, cap: nat) -> Seq<Seq<char>> {
    if s.len() > cap {
        s.skip(s.len() - cap)
    } else {
        s
    }
}

/// The processed keys loaded from disk, cleaned and bounded by `cap`.
pub open spec fn normalized_keys(raw: Seq<Seq<char>>, cap: nat) -> Seq<Seq<char>> {
    if cap == 0 {
        seq![]
    } else {
        keep_last(distinct_trimmed_keys(raw), cap)
    }
}

/// The processed keys after `key` was processed: appended unless already
/// there, the oldest dropped beyond `cap`.
pub open spec fn recorded_keys(keys: Seq<Seq<char>>, key: Seq<char>, cap: nat) -> Seq<Seq<char>> {
    if keys.contains(key) {
        keys
    } else {
        keep_last(keys.push(key), cap)
    }
}

/// Whether `k` is one of the strings of `v`.
fn contains_key(v: &Vec<String>, k: &str) -> (b: bool)
    ensures
        b == string_views(v@).contains(k@),
{
    let mut i: usize = 0;
    while i < v.len()
        invariant
            i <= v.len(),
            forall|j: int| 0 <= j < i ==> string_views(v@)[j] != k@,
        decreases v.len() - i,
    {
        if str_eq(v[i].as_str(), k) {
            assert(string_views(v@)[i as int] == k@);
            return true;
        }
        i += 1;
    }
    false
}

/// The last `cap` strings of `v`.
fn keep_last_strings(v: Vec<String>, cap: usize) -> (r: Vec<String>)
    ensures
        string_views(r@) == keep_last(string_views(v@), cap as nat),
{
    if v.len() > cap {
        let mut v = v;
        let at = v.len() - cap;
        let ghost sv = string_views(v@);
        let tail = v.split_off(at);
        assert(string_views(tail@) =~= sv.skip(at as int));
        tail
    } else {
        v
    }
}

/// Cleans the processed keys read from the state file: trims them, drops the
/// empty ones and repeats, and keeps the newest `cap`.
pub fn normalize_processed_keys(raw: &Vec<String>, cap: usize) -> (r: Vec<String>)
    ensures
        string_views(r@) == normalized_keys(string_views(raw@), cap as nat),
{
    let mut normalized: Vec<String> = Vec::new();
    let mut i: usize = 0;
    while i < raw.len()
        invariant
            i <= raw.len(),
            string_views(normalized@) == distinct_trimmed_keys(string_views(raw@).take(i as int)),
        decreases raw.len() - i,
    {
        let ghost before = string_views(raw@).take(i as int);
        let ghost after = string_views(raw@).take(i + 1);
        assert(after.drop_last() =~= before);
        let t = trim_chars(&chars_of(raw[i].as_str()));
        if t.len() > 0 {
            let owned = string_of(&t);
            if !contains_key(&normalized, owned.as_str()) {
                let ghost old_n = normalized@;
                normalized.push(owned);
                assert(string_views(normalized@) =~= string_views(old_n).push(t@));
            }
        }
        i += 1;
    }
    assert(string_views(raw@).take(raw.len() as int) =~= string_views(raw@));
    if cap == 0 {
        let e: Vec<String> = Vec::new();
        assert(string_views(e@) =~= seq![]);
        return e;
    }
    keep_last_strings(normalized, cap)
}

/// The normalised keys are distinct, trimmed, non-empty and at most `cap`.
pub proof fn lemma_normalized_keys_well_formed(raw: Seq<Seq<char>>, cap: nat)
    ensures
        normalized_keys(raw, cap).no_duplicates(),
        normalized_keys(raw, cap).len() <= cap,
        forall|i: int|
            0 <= i < normalized_keys(raw, cap).len() ==> {
                let k = #[trigger] normalized_keys(raw, cap)[i];
                k.len() > 0 && trim(k) == k
            },
{
    lemma_distinct_trimmed_keys(raw);
    let d = distinct_trimmed_keys(raw);
    if cap > 0 && d.len() > cap {
        let t = d.skip(d.len() - cap);
        assert forall|i: int, j: int| 0 <= i < t.len() && 0 <= j < t.len() && i != j implies t[i]
            != t[j] by {
            assert(t[i] == d[i + d.len() - cap]);
            assert(t[j] == d[j + d.len() - cap]);
        }
        assert forall|i: int| 0 <= i < t.len() implies t[i].len() > 0 && trim(t[i]) == t[i] by {
            assert(t[i] == d[i + d.len() - cap]);
        }
    }
}

proof fn lemma_distinct_trimmed_keys(raw: Seq<Seq<char>>)
    ensures
        distinct_trimmed_keys(raw).no_duplicates(),
        forall|i: int|
            0 <= i < distinct_trimmed_keys(raw).len() ==> {
                let k = #[trigger] distinct_trimmed_keys(raw)[i];
                k.len() > 0 && trim(k) == k
            },
    decreases raw.len(),
{
    if raw.len() > 0 {
        lemma_distinct_trimmed_keys(raw.drop_last());
        let t = trim(raw.last());
        crate::text::lemma_trim_idempotent(raw.last());
        let prev = distinct_trimmed_keys(raw.drop_last());
        if !(t.len() == 0 || prev.contains(t)) {
            let d = prev.push(t);
            assert forall|i: int, j: int| 0 <= i < d.len() && 0 <= j < d.len() && i != j implies d[i]
                != d[j] by {
                if i == prev.len() {
                    assert(prev[j] == d[j]);
                } else if j == prev.len() {
                    assert(prev[i] == d[i]);
                }
            }
        }
    }
}

proof fn lemma_distinct_trimmed_keys_fixed(s: Seq<Seq<char>>)
    requires
        s.no_duplicates(),
        forall|i: int| 0 <= i < s.len() ==> (#[trigger] s[i]).len() > 0 && trim(s[i]) == s[i],
    ensures
        distinct_trimmed_keys(s) == s,
    decreases s.len(),
{
    if s.len() > 0 {
        let p = s.drop_last();
        assert forall|i: int| 0 <= i < p.len() implies (#[trigger] p[i]).len() > 0 && trim(p[i]) == p[i] by {
            assert(p[i] == s[i]);
        }
        lemma_distinct_trimmed_keys_fixed(p);
        assert(!p.contains(s.last())) by {
            if p.contains(s.last()) {
                let j = choose|j: int| 0 <= j < p.len() && p[j] == s.last();
                assert(s[j] == s[s.len() - 1]);
            }
        }
        assert(s.last() == s[s.len() - 1]);
        assert(p.push(s.last()) =~= s);
    }
}

/// Loading a saved key list again changes nothing: normalising is idempotent.
pub proof fn lemma_normalized_keys_idempotent(raw: Seq<Seq<char>>, cap: nat)
    ensures
        normalized_keys(normalized_keys(raw, cap), cap) == normalized_keys(raw, cap),
{
    let n = normalized_keys(raw, cap);
    lemma_normalized_keys_well_formed(raw, cap);
    if cap > 0 {
        lemma_distinct_trimmed_keys_fixed(n);
    }
}

/// Recording a key keeps the set distinct and within its cap, and the key is
/// in it afterwards unless the cap is zero.
pub proof fn lemma_recorded_keys_bounded(keys: Seq<Seq<char>>, key: Seq<char>, cap: nat)
    requires
        keys.no_duplicates(),
        keys.len() <= cap,
    ensures
        recorded_keys(keys, key, cap).no_duplicates(),
        recorded_keys(keys, key, cap).len() <= cap,
        cap > 0 ==> recorded_keys(keys, key, cap).contains(key),
        recorded_keys(keys, key, cap).len() == keys.len() || keys.len() == cap || recorded_keys(
            keys,
            key,
            cap,
        ).len() == keys.len() + 1,
{
    if !keys.contains(key) {
        let p = keys.push(key);
        assert forall|i: int, j: int| 0 <= i < p.len() && 0 <= j < p.len() && i != j implies p[i]
            != p[j] by {
            if i == keys.len() {
                assert(keys[j] == p[j]);
            } else if j == keys.len() {
                assert(keys[i] == p[i]);
            }
        }
        if p.len() > cap {
            let t = p.skip(p.len() - cap);
            assert forall|i: int, j: int| 0 <= i < t.len() && 0 <= j < t.len() && i != j implies t[i]
                != t[j] by {
                assert(t[i] == p[i + p.len() - cap]);
                assert(t[j] == p[j + p.len() - cap]);
            }
            if cap > 0 {
                assert(t[cap - 1] == key);
            }
        } else {
            assert(p[keys.len() as int] == key);
        }
    }
}

// ---------------------------------------------------------------------------
// Retry schedule
// ---------------------------------------------------------------------------

pub open spec fn pow_two(e: nat) -> nat
    decreases e,
{
    if e == 0 {
        1
    } else {
        2 * pow_two((e - 1) as nat)
    }
}

/// `min(attempt - 1, 10)`, with `0 - 1` saturating to `0`.
pub open spec fn retry_exponent(attempt: usize) -> nat {
    let e: int = if attempt == 0 { 0 } else { attempt - 1 };
    if e > 10 { 10 } else { e as nat }
}

/// `base * 2^min(attempt - 1, 10)`, saturating at `u64::MAX`.
pub open spec fn retry_delay_spec(base_delay_ms: u64, attempt: usize) -> u64 {
    let v = base_delay_ms * pow_two(retry_exponent(attempt));
    if v > u64::MAX {
        u64::MAX
    } else {
        v as u64
    }
}

/// Exponential backoff before retrying `attempt`.
pub fn retry_delay_ms(base_delay_ms: u64, attempt: usize) -> (d: u64)
    ensures
        d == retry_delay_spec(base_delay_ms, attempt),
{
    if base_delay_ms == 0 {
        assert(0 * pow_two(retry_exponent(attempt)) == 0);
        return 0;
    }
    let e1: usize = attempt.saturating_sub(1);
    let exponent: usize = if e1 < 10 { e1 } else { 10 };
    let mut factor: u64 = 1;
    let mut k: usize = 0;
    while k < exponent
        invariant
            k <= exponent <= 10,
            factor == pow_two(k as nat),
            factor <= 1024,
        decreases exponent - k,
    {
        proof {
            lemma_pow_two_small((k + 1) as nat);
        }
        factor = factor * 2;
        k += 1;
    }
    assert(exponent == retry_exponent(attempt));
    match base_delay_ms.checked_mul(factor) {
        Some(v) => v,
        None => u64::MAX,
    }
}

proof fn lemma_pow_two_small(e: nat)
    requires
        e <= 10,
    ensures
        pow_two(e) <= 1024,
    decreases e,
{
    reveal_with_fuel(pow_two, 11);
}

proof fn lemma_pow_two_monotone(a: nat, b: nat)
    requires
        a <= b,
    ensures
        pow_two(a) <= pow_two(b),
    decreases b,
{
    if a < b {
        lemma_pow_two_monotone(a, (b - 1) as nat);
    }
}

/// Later attempts never wait less.
pub proof fn lemma_retry_delay_monotone(base_delay_ms: u64, a: usize, b: usize)
    requires
        a <= b,
    ensures
        retry_delay_spec(base_delay_ms, a) <= retry_delay_spec(base_delay_ms, b),
{
    let (pa, pb) = (pow_two(retry_exponent(a)), pow_two(retry_exponent(b)));
    lemma_pow_two_monotone(retry_exponent(a), retry_exponent(b));
    assert(base_delay_ms * pa <= base_delay_ms * pb) by (nonlinear_arith)
        requires
            pa <= pb,
    ;
}


// ---------------------------------------------------------------------------
// Inbound events and responses
// ---------------------------------------------------------------------------

/// The kind of an inbound event.
#[derive(Debug, Clone, Copy, PartialEq, Eq, Structural)]
pub enum MultiChannelEventKind {
    Message,
    Command,
}

/// An inbound event as the runner reads it.
#[derive(Debug, Clone)]
pub struct MultiChannelInboundEvent {
    pub transport: MultiChannelTransport,
    pub event_kind: MultiChannelEventKind,
    pub event_id: String,
    pub conversation_id: String,
    pub actor_id: String,
    pub timestamp_ms: u64,
    pub text: String,
    /// `metadata.simulate_transient_failures` where it is an unsigned integer.
    pub simulate_transient_failures: Option<u64>,
}

/// A command is an event of kind `Command` or whose trimmed text starts with `/`.
pub open spec fn is_command_event(event: MultiChannelInboundEvent) -> bool {
    event.event_kind == MultiChannelEventKind::Command || starts_with(trim(event.text@), "/"@)
}

/// The runner's reply to an event.
pub open spec fn response_spec(event: MultiChannelInboundEvent) -> Seq<char> {
    let transport = transport_name(event.transport);
    let event_id = trim(event.event_id@);
    if is_command_event(event) {
        "command acknowledged: transport="@ + transport + " event_id="@ + event_id
            + " conversation="@ + event.conversation_id@
    } else {
        "message processed: transport="@ + transport + " event_id="@ + event_id
            + " text_chars="@ + decimal(event.text@.len())
    }
}

/// The key by which the runner knows an event again: the transport's name, a
/// colon and the trimmed event identifier.
pub open spec fn event_key_spec(event: MultiChannelInboundEvent) -> Seq<char> {
    transport_name(event.transport) + ":"@ + trim(event.event_id@)
}

/// The key of an event in the processed-event set and the channel store.
pub fn event_key(event: &MultiChannelInboundEvent) -> (r: String)
    ensures
        r@ == event_key_spec(*event),
{
    let mut k = chars_of(event.transport.as_str());
    append_str(&mut k, ":");
    append_chars(&mut k, &trim_chars(&chars_of(event.event_id.as_str())));
    string_of(&k)
}

/// The acknowledgement text written back for an event.
pub fn render_response(event: &MultiChannelInboundEvent) -> (r: String)
    ensures
        r@ == response_spec(*event),
{
    let transport = event.transport.as_str();
    let event_id = trim_chars(&chars_of(event.event_id.as_str()));
    let text = trim_chars(&chars_of(event.text.as_str()));
    let slash = text.len() > 0 && text[0] == '/';
    proof {
        reveal_strlit("/");
        if starts_with(text@, "/"@) {
            assert(text@[0] == "/"@[0]);
        }
        if slash {
            assert(text@.subrange(0, 1) =~= "/"@);
        }
    }
    let command = match event.event_kind {
        MultiChannelEventKind::Command => true,
        MultiChannelEventKind::Message => slash,
    };
    if command {
        let mut out = chars_of("command acknowledged: transport=");
        append_str(&mut out, transport);
        append_str(&mut out, " event_id=");
        append_chars(&mut out, &event_id);
        append_str(&mut out, " conversation=");
        append_str(&mut out, event.conversation_id.as_str());
        string_of(&out)
    } else {
        let n = chars_of(event.text.as_str()).len();
        let mut out = chars_of("message processed: transport=");
        append_str(&mut out, transport);
        append_str(&mut out, " event_id=");
        append_chars(&mut out, &event_id);
        append_str(&mut out, " text_chars=");
        append_chars(&mut out, &decimal_chars(n as u64));
        string_of(&out)
    }
}

/// How many transient failures the event asks the runner to simulate: the
/// metadata value where it fits a `usize`, else none.
pub fn simulated_transient_failures(event: &MultiChannelInboundEvent) -> (n: usize)
    ensures
        n == match event.simulate_transient_failures {
            Some(v) => if v <= usize::MAX { v as usize } else { 0 },
            None => 0,
        },
{
    match event.simulate_transient_failures {
        Some(v) => {
            if v <= usize::MAX as u64 {
                v as usize
            } else {
                0
            }
        },
        None => 0,
    }
}

// ---------------------------------------------------------------------------
// Runtime state and decisions
// ---------------------------------------------------------------------------

/// Settings of one runner.
#[derive(Debug, Clone)]
pub struct MultiChannelRuntimeConfig {
    pub fixture_path: String,
    pub state_dir: String,
    pub queue_limit: usize,
    pub processed_event_cap: usize,
    pub retry_max_attempts: usize,
    pub retry_base_delay_ms: u64,
}

/// Counters of one run.
#[derive(Debug, Clone, Copy, PartialEq, Eq, Structural)]
pub struct MultiChannelRuntimeSummary {
    pub discovered_events: usize,
    pub queued_events: usize,
    pub completed_events: usize,
    pub duplicate_skips: usize,
    pub transient_failures: usize,
    pub retry_attempts: usize,
    pub failed_events: usize,
}

pub open spec fn zero_summary() -> MultiChannelRuntimeSummary {
    MultiChannelRuntimeSummary {
        discovered_events: 0,
        queued_events: 0,
        completed_events: 0,
        duplicate_skips: 0,
        transient_failures: 0,
        retry_attempts: 0,
        failed_events: 0,
    }
}

impl Default for MultiChannelRuntimeSummary {
    fn default() -> (s: Self)
        ensures
            s == zero_summary(),
    {
        MultiChannelRuntimeSummary {
            discovered_events: 0,
            queued_events: 0,
            completed_events: 0,
            duplicate_skips: 0,
            transient_failures: 0,
            retry_attempts: 0,
            failed_events: 0,
        }
    }
}

/// What the state file holds.
#[derive(Debug, Clone)]
pub struct MultiChannelRuntimeState {
    pub schema_version: u32,
    pub processed_event_keys: Vec<String>,
}

impl Default for MultiChannelRuntimeState {
    fn default() -> (s: Self)
        ensures
            s.schema_version == MULTI_CHANNEL_RUNTIME_STATE_SCHEMA_VERSION,
            s.processed_event_keys@.len() == 0,
    {
        MultiChannelRuntimeState {
            schema_version: MULTI_CHANNEL_RUNTIME_STATE_SCHEMA_VERSION,
            processed_event_keys: Vec::new(),
        }
    }
}

/// The state to start from, given what could be read from the state file:
/// it is kept when its schema is the current one, and a fresh state is used
/// when the file was missing, unreadable as JSON, or of another schema.
pub fn runtime_state_or_fresh(parsed: Option<MultiChannelRuntimeState>) -> (s: MultiChannelRuntimeState)
    ensures
        match parsed {
            Some(p) if p.schema_version == MULTI_CHANNEL_RUNTIME_STATE_SCHEMA_VERSION => s == p,
            _ => s.schema_version == MULTI_CHANNEL_RUNTIME_STATE_SCHEMA_VERSION
                && s.processed_event_keys@.len() == 0,
        },
{
    match parsed {
        Some(p) => {
            if p.schema_version == MULTI_CHANNEL_RUNTIME_STATE_SCHEMA_VERSION {
                p
            } else {
                MultiChannelRuntimeState::default()
            }
        },
        None => MultiChannelRuntimeState::default(),
    }
}

/// The next step of one event's delivery.
#[derive(Debug, Clone, Copy, PartialEq, Eq, Structural)]
pub enum AttemptAction {
    /// Write the event and its reply to the channel store, then report back.
    Persist,
    /// Wait `delay_ms`, then start attempt `next_attempt`.
    Retry { delay_ms: u64, next_attempt: usize },
    /// The event was delivered; record its key.
    Complete,
    /// The event is given up.
    Fail,
}

pub open spec fn sat_inc(x: usize) -> usize {
    if x == usize::MAX {
        x
    } else {
        (x + 1) as usize
    }
}

/// One decision of the delivery loop. `persisted` is `None` when the attempt
/// starts and the outcome of writing the event once it was tried.
pub open spec fn attempt_spec(
    s: MultiChannelRuntimeSummary,
    retry_max_attempts: usize,
    retry_base_delay_ms: u64,
    attempt: usize,
    simulated_failures: usize,
    persisted: Option<bool>,
) -> (MultiChannelRuntimeSummary, AttemptAction) {
    let retry = AttemptAction::Retry {
        delay_ms: retry_delay_spec(retry_base_delay_ms, attempt),
        next_attempt: sat_inc(attempt),
    };
    match persisted {
        None => {
            if attempt <= simulated_failures {
                let s1 = MultiChannelRuntimeSummary {
                    transient_failures: sat_inc(s.transient_failures),
                    ..s
                };
                if attempt >= retry_max_attempts {
                    (
                        MultiChannelRuntimeSummary { failed_events: sat_inc(s1.failed_events), ..s1 },
                        AttemptAction::Fail,
                    )
                } else {
                    (
                        MultiChannelRuntimeSummary { retry_attempts: sat_inc(s1.retry_attempts), ..s1 },
                        retry,
                    )
                }
            } else {
                (s, AttemptAction::Persist)
            }
        },
        Some(true) => (
            MultiChannelRuntimeSummary { completed_events: sat_inc(s.completed_events), ..s },
            AttemptAction::Complete,
        ),
        Some(false) => {
            if attempt >= retry_max_attempts {
                (
                    MultiChannelRuntimeSummary { failed_events: sat_inc(s.failed_events), ..s },
                    AttemptAction::Fail,
                )
            } else {
                (
                    MultiChannelRuntimeSummary {
                        transient_failures: sat_inc(s.transient_failures),
                        retry_attempts: sat_inc(s.retry_attempts),
                        ..s
                    },
                    retry,
                )
            }
        },
    }
}

fn sat_inc_exec(x: usize) -> (r: usize)
    ensures
        r == sat_inc(x),
{
    x.saturating_add(1)
}

/// A runner: its settings and the keys of the events it has processed.
pub struct MultiChannelRuntime {
    pub config: MultiChannelRuntimeConfig,
    pub state: MultiChannelRuntimeState,
}

/// Every key the queue of `entries` holds is among `keys`.
pub open spec fn queued_keys_known(keys: Seq<Seq<char>>, entries: Seq<QueueEntry>, limit: usize) -> bool {
    forall|o: Seq<usize>, j: int|
        is_event_queue(entries, limit, o) && 0 <= j < o.len() ==> keys.contains(
            #[trigger] entries[o[j] as int].event_key@,
        )
}

proof fn lemma_queue_before_asym(e: Seq<QueueEntry>, i: int, j: int)
    requires
        queue_before(e, i, j),
    ensures
        !queue_before(e, j, i),
{
    if queue_before(e, j, i) {
        lemma_queue_before_transitive(e, i, j, i);
        lemma_queue_before_irreflexive(e, i);
    }
}

/// The queue of a run is determined by the entries and the limit.
pub proof fn lemma_event_queue_unique(e: Seq<QueueEntry>, limit: usize, o1: Seq<usize>, o2: Seq<usize>)
    requires
        is_event_queue(e, limit, o1),
        is_event_queue(e, limit, o2),
    ensures
        o1 == o2,
{
    if o1.len() > 0 {
        lemma_event_queue_agree_upto(e, limit, o1, o2, o1.len() - 1);
    }
    assert(o1 =~= o2);
}

proof fn lemma_event_queue_agree_upto(
    e: Seq<QueueEntry>,
    limit: usize,
    o1: Seq<usize>,
    o2: Seq<usize>,
    k: int,
)
    requires
        is_event_queue(e, limit, o1),
        is_event_queue(e, limit, o2),
        0 <= k < o1.len(),
    ensures
        forall|p: int| 0 <= p <= k ==> o1[p] == o2[p],
    decreases k,
{
    if k > 0 {
        lemma_event_queue_agree_upto(e, limit, o1, o2, k - 1);
    }
    let a = o1[k];
    let b = o2[k];
    if a != b {
        if o2.contains(a) {
            let p = choose|p: int| 0 <= p < o2.len() && o2[p] == a;
            if p < k {
                assert(o1[p] == a);
                lemma_queue_before_irreflexive(e, a as int);
                assert(queue_before(e, o1[p] as int, o1[k] as int));
            }
            assert(p != k);
            assert(queue_before(e, o2[k] as int, o2[p] as int));
        } else {
            assert(queue_before(e, o2[k] as int, a as int));
        }
        assert(queue_before(e, b as int, a as int));
        if o1.contains(b) {
            let q = choose|q: int| 0 <= q < o1.len() && o1[q] == b;
            if q < k {
                assert(o2[q] == b);
                lemma_queue_before_irreflexive(e, b as int);
                assert(queue_before(e, o2[q] as int, o2[k] as int));
            }
            assert(q != k);
            assert(queue_before(e, o1[k] as int, o1[q] as int));
        } else {
            assert(queue_before(e, o1[k] as int, b as int));
        }
        assert(queue_before(e, a as int, b as int));
        lemma_queue_before_asym(e, a as int, b as int);
    }
}

/// The `jj`th of the last `n` items of `s`.
pub open spec fn from_end(s: Seq<Seq<char>>, n: int, jj: int) -> Seq<char> {
    s[s.len() - n + jj]
}

/// Recording a new key keeps the last `j` keys when the cap leaves room for
/// `j + 1`, and puts the new key last.
proof fn lemma_recorded_suffix(keys: Seq<Seq<char>>, key: Seq<char>, cap: nat, j: nat)
    requires
        !keys.contains(key),
        keys.len() >= j,
        j + 1 <= cap,
    ensures
        recorded_keys(keys, key, cap).len() >= j + 1,
        recorded_keys(keys, key, cap)[recorded_keys(keys, key, cap).len() - 1] == key,
        forall|jj: int|
            0 <= jj < j ==> #[trigger] from_end(recorded_keys(keys, key, cap), (j + 1) as int, jj) == from_end(
                keys,
                j as int,
                jj,
            ),
{
    let r = recorded_keys(keys, key, cap);
    let p = keys.push(key);
    assert(r == keep_last(p, cap));
    if p.len() > cap {
        assert(r =~= p.skip(p.len() - cap));
    }
}

impl MultiChannelRuntime {
    pub open spec fn keys(&self) -> Seq<Seq<char>> {
        string_views(self.state.processed_event_keys@)
    }

    /// The processed keys are distinct and within the cap.
    pub open spec fn well_formed(&self) -> bool {
        &&& self.keys().no_duplicates()
        &&& self.keys().len() <= self.config.processed_event_cap
    }

    /// A runner over the state loaded from disk, its keys normalised.
    pub fn new(config: MultiChannelRuntimeConfig, loaded: MultiChannelRuntimeState) -> (r: Self)
        ensures
            r.config == config,
            r.state.schema_version == loaded.schema_version,
            r.keys() == normalized_keys(
                string_views(loaded.processed_event_keys@),
                config.processed_event_cap as nat,
            ),
            r.well_formed(),
    {
        let keys = normalize_processed_keys(&loaded.processed_event_keys, config.processed_event_cap);
        proof {
            lemma_normalized_keys_well_formed(
                string_views(loaded.processed_event_keys@),
                config.processed_event_cap as nat,
            );
        }
        MultiChannelRuntime {
            config,
            state: MultiChannelRuntimeState {
                schema_version: loaded.schema_version,
                processed_event_keys: keys,
            },
        }
    }

    /// `<state_dir>/state.json`.
    pub fn state_path(&self) -> (p: String)
        ensures
            p@ == path_join(self.config.state_dir@, MULTI_CHANNEL_RUNTIME_STATE_FILE_NAME@),
    {
        string_of(
            &path_join_exec(
                &chars_of(self.config.state_dir.as_str()),
                &chars_of(MULTI_CHANNEL_RUNTIME_STATE_FILE_NAME),
            ),
        )
    }

    /// Whether an event with this key was processed before.
    pub fn is_processed(&self, event_key: &str) -> (b: bool)
        ensures
            b == self.keys().contains(event_key@),
    {
        contains_key(&self.state.processed_event_keys, event_key)
    }

    /// Records a delivered event: its key joins the processed keys unless it is
    /// there already, and the oldest keys beyond the cap are dropped.
    pub fn record_processed_event(&mut self, event_key: &str)
        ensures
            final(self).config == old(self).config,
            final(self).state.schema_version == old(self).state.schema_version,
            final(self).keys() == recorded_keys(
                old(self).keys(),
                event_key@,
                old(self).config.processed_event_cap as nat,
            ),
            old(self).well_formed() ==> final(self).well_formed(),
    {
        proof {
            if old(self).well_formed() {
                lemma_recorded_keys_bounded(
                    old(self).keys(),
                    event_key@,
                    old(self).config.processed_event_cap as nat,
                );
            }
        }
        if contains_key(&self.state.processed_event_keys, event_key) {
            return;
        }
        let mut keys = Vec::new();
        std::mem::swap(&mut keys, &mut self.state.processed_event_keys);
        let ghost old_keys = keys@;
        keys.push(string_of(&chars_of(event_key)));
        assert(string_views(keys@) =~= string_views(old_keys).push(event_key@));
        self.state.processed_event_keys = keep_last_strings(keys, self.config.processed_event_cap);
    }

    /// The queue and the opening counters of a run over `entries`.
    pub fn plan_run(&self, entries: &Vec<QueueEntry>) -> (r: (Vec<usize>, MultiChannelRuntimeSummary))
        ensures
            is_event_queue(entries@, self.config.queue_limit, r.0@),
            r.1 == (MultiChannelRuntimeSummary {
                discovered_events: entries.len(),
                queued_events: r.0.len(),
                ..zero_summary()
            }),
    {
        let order = order_event_queue(entries, self.config.queue_limit);
        let mut summary = MultiChannelRuntimeSummary::default();
        summary.discovered_events = entries.len();
        summary.queued_events = order.len();
        (order, summary)
    }

    /// Whether a queued event is delivered at all: an event whose key was
    /// processed before is skipped and counted as a duplicate.
    pub fn admit_event(&self, summary: &mut MultiChannelRuntimeSummary, event_key: &str) -> (admitted: bool)
        ensures
            admitted == !self.keys().contains(event_key@),
            *final(summary) == if admitted {
                *old(summary)
            } else {
                MultiChannelRuntimeSummary {
                    duplicate_skips: sat_inc(old(summary).duplicate_skips),
                    ..*old(summary)
                }
            },
    {
        if self.is_processed(event_key) {
            summary.duplicate_skips = sat_inc_exec(summary.duplicate_skips);
            false
        } else {
            true
        }
    }

    /// One step of an event's delivery: simulated transient failures come
    /// first, then the write; a failure is retried with backoff until
    /// `retry_max_attempts` attempts were made.
    pub fn attempt_step(
        &self,
        summary: &mut MultiChannelRuntimeSummary,
        attempt: usize,
        simulated_failures: usize,
        persisted: Option<bool>,
    ) -> (action: AttemptAction)
        ensures
            (*final(summary), action) == attempt_spec(
                *old(summary),
                self.config.retry_max_attempts,
                self.config.retry_base_delay_ms,
                attempt,
                simulated_failures,
                persisted,
            ),
    {
        let max = self.config.retry_max_attempts;
        let base = self.config.retry_base_delay_ms;
        match persisted {
            None => {
                if attempt <= simulated_failures {
                    summary.transient_failures = sat_inc_exec(summary.transient_failures);
                    if attempt >= max {
                        summary.failed_events = sat_inc_exec(summary.failed_events);
                        AttemptAction::Fail
                    } else {
                        summary.retry_attempts = sat_inc_exec(summary.retry_attempts);
                        AttemptAction::Retry {
                            delay_ms: retry_delay_ms(base, attempt),
                            next_attempt: sat_inc_exec(attempt),
                        }
                    }
                } else {
                    AttemptAction::Persist
                }
            },
            Some(true) => {
                summary.completed_events = sat_inc_exec(summary.completed_events);
                AttemptAction::Complete
            },
            Some(false) => {
                if attempt >= max {
                    summary.failed_events = sat_inc_exec(summary.failed_events);
                    AttemptAction::Fail
                } else {
                    summary.transient_failures = sat_inc_exec(summary.transient_failures);
                    summary.retry_attempts = sat_inc_exec(summary.retry_attempts);
                    AttemptAction::Retry {
                        delay_ms: retry_delay_ms(base, attempt),
                        next_attempt: sat_inc_exec(attempt),
                    }
                }
            },
        }
    }

    /// Delivers one admitted event: simulated transient failures first, then
    /// `persist(index)` writes it, retried after `pause(delay)` until
    /// `retry_max_attempts` attempts were made. `true` when it was delivered,
    /// and then its key is recorded.
    fn deliver_event<P: Fn(usize) -> bool, D: Fn(u64)>(
        &mut self,
        summary: &mut MultiChannelRuntimeSummary,
        key: &str,
        index: usize,
        simulated: usize,
        persist: &P,
        pause: &D,
    ) -> (delivered: bool)
        requires
            call_requires(*persist, (index,)),
            forall|d: u64| call_requires(*pause, (d,)),
            old(summary).completed_events + old(summary).failed_events < usize::MAX,
            old(summary).retry_attempts <= old(summary).transient_failures,
        ensures
            final(summary).discovered_events == old(summary).discovered_events,
            final(summary).queued_events == old(summary).queued_events,
            final(summary).duplicate_skips == old(summary).duplicate_skips,
            final(summary).retry_attempts <= final(summary).transient_failures,
            delivered ==> final(summary).completed_events == old(summary).completed_events + 1
                && final(summary).failed_events == old(summary).failed_events,
            !delivered ==> final(summary).failed_events == old(summary).failed_events + 1
                && final(summary).completed_events == old(summary).completed_events,
            final(self).config == old(self).config,
            final(self).state.schema_version == old(self).state.schema_version,
            delivered ==> final(self).keys() == recorded_keys(
                old(self).keys(),
                key@,
                old(self).config.processed_event_cap as nat,
            ),
            !delivered ==> final(self).keys() == old(self).keys(),
            old(self).well_formed() ==> final(self).well_formed(),
    {
        let ghost s0 = *summary;
        let mut attempt: usize = 1;
        let mut persisted: Option<bool> = None;
        let max = self.config.retry_max_attempts;
        loop
            invariant_except_break
                summary.completed_events == s0.completed_events,
                summary.failed_events == s0.failed_events,
                persisted != Some(true),
            invariant
                call_requires(*persist, (index,)),
                forall|d: u64| call_requires(*pause, (d,)),
                max == self.config.retry_max_attempts,
                *self == *old(self),
                summary.discovered_events == s0.discovered_events,
                summary.queued_events == s0.queued_events,
                summary.duplicate_skips == s0.duplicate_skips,
                summary.retry_attempts <= summary.transient_failures,
                s0.completed_events + s0.failed_events < usize::MAX,
                attempt >= 1,
                persisted is Some ==> attempt > simulated,
            ensures
                summary.discovered_events == s0.discovered_events,
                summary.queued_events == s0.queued_events,
                summary.duplicate_skips == s0.duplicate_skips,
                summary.retry_attempts <= summary.transient_failures,
                (summary.completed_events == s0.completed_events + 1 && summary.failed_events
                    == s0.failed_events && *self == *old(self) && persisted == Some(true))
                    || (summary.failed_events == s0.failed_events + 1 && summary.completed_events
                    == s0.completed_events && *self == *old(self) && persisted != Some(true)),
            decreases (if attempt < max { max - attempt } else { 0 }), (if persisted is None { 1int } else { 0int }),
        {
            let action = self.attempt_step(summary, attempt, simulated, persisted);
            match action {
                AttemptAction::Persist => {
                    let ok = persist(index);
                    if ok {
                        persisted = Some(true);
                        let next = self.attempt_step(summary, attempt, simulated, persisted);
                        assert(next == AttemptAction::Complete);
                        break;
                    }
                    persisted = Some(false);
                },
                AttemptAction::Retry { delay_ms, next_attempt } => {
                    pause(delay_ms);
                    attempt = next_attempt;
                    persisted = None;
                },
                AttemptAction::Complete => {
                    break;
                },
                AttemptAction::Fail => {
                    break;
                },
            }
        }
        if persisted == Some(true) {
            self.record_processed_event(key);
            true
        } else {
            false
        }
    }

    /// One run over the events of a fixture: `entries` are their queue keys,
    /// `simulated[i]` the transient failures the `i`th event simulates,
    /// `persist(i)` writes the `i`th event to the channel store and says
    /// whether it succeeded, and `pause(ms)` waits between attempts.
    ///
    /// Every queued event is counted once, as delivered, skipped as a
    /// duplicate or failed, and a retry always follows a transient failure.
    /// A run in which every queued key is already processed delivers nothing
    /// and skips every event; a run that delivers every queued event (and
    /// whose key cap holds them) leaves every queued key processed, so running
    /// the same events again skips them all.
    pub fn run_queue<P: Fn(usize) -> bool, D: Fn(u64)>(
        &mut self,
        entries: &Vec<QueueEntry>,
        simulated: &Vec<usize>,
        persist: &P,
        pause: &D,
    ) -> (s: MultiChannelRuntimeSummary)
        requires
            simulated.len() == entries.len(),
            forall|i: usize| call_requires(*persist, (i,)),
            forall|d: u64| call_requires(*pause, (d,)),
        ensures
            final(self).config == old(self).config,
            final(self).state.schema_version == old(self).state.schema_version,
            old(self).well_formed() ==> final(self).well_formed(),
            s.discovered_events == entries.len(),
            s.queued_events == if entries.len() < old(self).config.queue_limit {
                entries.len()
            } else {
                old(self).config.queue_limit
            },
            s.completed_events + s.duplicate_skips + s.failed_events == s.queued_events,
            s.retry_attempts <= s.transient_failures,
            queued_keys_known(old(self).keys(), entries@, old(self).config.queue_limit) ==> {
                &&& s.completed_events == 0
                &&& s.duplicate_skips == s.queued_events
                &&& final(self).keys() == old(self).keys()
            },
            (s.failed_events == 0 && s.duplicate_skips == 0 && s.queued_events
                <= old(self).config.processed_event_cap) ==> queued_keys_known(
                final(self).keys(),
                entries@,
                old(self).config.queue_limit,
            ),
    {
        let ghost keys0 = self.keys();
        let ghost cap = self.config.processed_event_cap;
        let ghost limit = self.config.queue_limit;
        let (order, mut summary) = self.plan_run(entries);
        let ghost known0 = queued_keys_known(keys0, entries@, limit);
        let mut j: usize = 0;
        while j < order.len()
            invariant
                forall|i: usize| call_requires(*persist, (i,)),
                forall|d: u64| call_requires(*pause, (d,)),
                simulated.len() == entries.len(),
                is_event_queue(entries@, limit, order@),
                limit == self.config.queue_limit,
                cap == self.config.processed_event_cap,
                self.config == old(self).config,
                self.state.schema_version == old(self).state.schema_version,
                old(self).well_formed() ==> self.well_formed(),
                keys0 == old(self).keys(),
                known0 == queued_keys_known(keys0, entries@, limit),
                j <= order.len(),
                summary.discovered_events == entries.len(),
                summary.queued_events == order.len(),
                summary.completed_events + summary.duplicate_skips + summary.failed_events == j,
                summary.retry_attempts <= summary.transient_failures,
                known0 ==> summary.completed_events == 0 && summary.duplicate_skips == j
                    && self.keys() == keys0,
                (summary.failed_events == 0 && summary.duplicate_skips == 0 && order.len() <= cap)
                    ==> {
                    &&& self.keys().len() >= j
                    &&& forall|jj: int|
                        0 <= jj < j ==> from_end(self.keys(), j as int, jj)
                            == #[trigger] entries@[order@[jj] as int].event_key@
                },
            decreases order.len() - j,
        {
            let idx = order[j];
            let key = entries[idx].event_key.as_str();
            let ghost keys_before = self.keys();
            let ghost sum_before = summary;
            if !self.admit_event(&mut summary, key) {
                proof {
                    if known0 {
                        assert(entries@[order@[j as int] as int].event_key@ == key@);
                    }
                }
                j += 1;
                continue;
            }
            proof {
                if known0 {
                    assert(keys0.contains(entries@[order@[j as int] as int].event_key@));
                }
            }
            let delivered = self.deliver_event(&mut summary, key, idx, simulated[idx], persist, pause);
            proof {
                if delivered && summary.failed_events == 0 && summary.duplicate_skips == 0
                    && order.len() <= cap {
                    lemma_recorded_suffix(keys_before, key@, cap as nat, j as nat);
                    let k2 = self.keys();
                    assert forall|jj: int| 0 <= jj < j + 1 implies from_end(k2, j + 1, jj)
                        == #[trigger] entries@[order@[jj] as int].event_key@ by {
                        if jj < j {
                            assert(from_end(keys_before, j as int, jj)
                                == entries@[order@[jj] as int].event_key@);
                            assert(from_end(k2, j + 1, jj) == from_end(keys_before, j as int, jj));
                        } else {
                            assert(from_end(k2, j + 1, jj) == k2[k2.len() - 1]);
                        }
                    }
                }
            }
            j += 1;
        }
        proof {
            if summary.failed_events == 0 && summary.duplicate_skips == 0 && order.len() <= cap {
                let k = self.keys();
                assert forall|o: Seq<usize>, jj: int|
                    is_event_queue(entries@, limit, o) && 0 <= jj < o.len() implies k.contains(
                    entries@[o[jj] as int].event_key@,
                ) by {
                    lemma_event_queue_unique(entries@, limit, o, order@);
                    assert(from_end(k, order.len() as int, jj) == entries@[order@[jj] as int].event_key@);
                    assert(k[k.len() - order.len() + jj] == from_end(k, order.len() as int, jj));
                }
            }
        }
        summary
    }
}

} // verus!
