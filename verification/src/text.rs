//! Character-level text model shared by the parsers and renderers of the crate.
//!
//! Strings are modelled by their `Seq<char>` views. The executable helpers work
//! on `char` vectors and are proved against the spec functions below, which
//! follow the documented behaviour of the `str` methods that the agent relies on
//! (`trim`, `split_whitespace`, `lines`, `starts_with`, `contains`, ...).
use vstd::prelude::*;

verus! {

// ---------------------------------------------------------------------------
// Spec model
// ---------------------------------------------------------------------------

/// Unicode `White_Space` property, the set used by `char::is_whitespace`.
pub open spec fn is_ws(c: char) -> bool {
    ||| ('\t' <= c && c <= '\r')
    ||| c == ' '
    ||| c == '\u{85}'
    ||| c == '\u{A0}'
    ||| c == '\u{1680}'
    ||| ('\u{2000}' <= c && c <= '\u{200A}')
    ||| c == '\u{2028}'
    ||| c == '\u{2029}'
    ||| c == '\u{202F}'
    ||| c == '\u{205F}'
    ||| c == '\u{3000}'
}

/// ASCII letters and digits (`char::is_ascii_alphanumeric`).
pub open spec fn is_ascii_alnum(c: char) -> bool {
    ||| ('a' <= c && c <= 'z')
    ||| ('A' <= c && c <= 'Z')
    ||| ('0' <= c && c <= '9')
}

/// ASCII letters (`char::is_ascii_alphabetic`).
pub open spec fn is_ascii_alpha(c: char) -> bool {
    ||| ('a' <= c && c <= 'z')
    ||| ('A' <= c && c <= 'Z')
}

/// `char::to_ascii_lowercase`.
pub open spec fn ascii_lower(c: char) -> char {
    if 'A' <= c && c <= 'Z' {
        ((c as u32) + 32) as char
    } else {
        c
    }
}

pub open spec fn lower_all(s: Seq<char>) -> Seq<char> {
    s.map_values(|c: char| ascii_lower(c))
}

/// `str::trim_start`.
pub open spec fn trim_start(s: Seq<char>) -> Seq<char>
    decreases s.len(),
{
    if s.len() > 0 && is_ws(s[0]) {
        trim_start(s.drop_first())
    } else {
        s
    }
}

/// `str::trim_end`.
pub open spec fn trim_end(s: Seq<char>) -> Seq<char>
    decreases s.len(),
{
    if s.len() > 0 && is_ws(s.last()) {
        trim_end(s.drop_last())
    } else {
        s
    }
}

/// `str::trim`.
pub open spec fn trim(s: Seq<char>) -> Seq<char> {
    trim_end(trim_start(s))
}

pub open spec fn starts_with(s: Seq<char>, p: Seq<char>) -> bool {
    p.len() <= s.len() && s.subrange(0, p.len() as int) == p
}

pub open spec fn ends_with(s: Seq<char>, p: Seq<char>) -> bool {
    p.len() <= s.len() && s.subrange(s.len() - p.len(), s.len() as int) == p
}

pub open spec fn occurs_at(s: Seq<char>, p: Seq<char>, i: int) -> bool {
    0 <= i && i + p.len() <= s.len() && s.subrange(i, i + p.len()) == p
}

/// `str::contains` with a string pattern.
pub open spec fn contains(s: Seq<char>, p: Seq<char>) -> bool {
    exists|i: int| occurs_at(s, p, i)
}

/// `str::contains` with a `char` pattern.
pub open spec fn has_char(s: Seq<char>, c: char) -> bool {
    exists|i: int| 0 <= i < s.len() && s[i] == c
}

/// Index of the first `c` in `s`, or `s.len()` when there is none.
pub open spec fn index_of(s: Seq<char>, c: char) -> int
    decreases s.len(),
{
    if s.len() == 0 {
        0
    } else if s[0] == c {
        0
    } else {
        1 + index_of(s.drop_first(), c)
    }
}

/// The text before the first `c` (`s.split(c).next()`).
pub open spec fn before_first(s: Seq<char>, c: char) -> Seq<char> {
    s.take(index_of(s, c))
}

/// Fold of `split_whitespace` over a prefix: the finished tokens and the token in progress.
pub open spec fn ws_split_state(s: Seq<char>) -> (Seq<Seq<char>>, Seq<char>)
    decreases s.len(),
{
    if s.len() == 0 {
        (seq![], seq![])
    } else {
        let (done, cur) = ws_split_state(s.drop_last());
        if is_ws(s.last()) {
            if cur.len() > 0 {
                (done.push(cur), seq![])
            } else {
                (done, cur)
            }
        } else {
            (done, cur.push(s.last()))
        }
    }
}

/// `str::split_whitespace`.
pub open spec fn split_ws(s: Seq<char>) -> Seq<Seq<char>> {
    let (done, cur) = ws_split_state(s);
    if cur.len() > 0 {
        done.push(cur)
    } else {
        done
    }
}

/// Fold of `split(c)` over a prefix.
pub open spec fn split_state(s: Seq<char>, sep: char) -> (Seq<Seq<char>>, Seq<char>)
    decreases s.len(),
{
    if s.len() == 0 {
        (seq![], seq![])
    } else {
        let (done, cur) = split_state(s.drop_last(), sep);
        if s.last() == sep {
            (done.push(cur), seq![])
        } else {
            (done, cur.push(s.last()))
        }
    }
}

/// `str::split(c)` for a single separator character.
pub open spec fn split_on(s: Seq<char>, sep: char) -> Seq<Seq<char>> {
    let (done, cur) = split_state(s, sep);
    done.push(cur)
}

pub open spec fn strip_cr(s: Seq<char>) -> Seq<char> {
    if s.len() > 0 && s.last() == '\r' {
        s.drop_last()
    } else {
        s
    }
}

/// Fold of `lines` over a prefix.
pub open spec fn lines_state(s: Seq<char>) -> (Seq<Seq<char>>, Seq<char>)
    decreases s.len(),
{
    if s.len() == 0 {
        (seq![], seq![])
    } else {
        let (done, cur) = lines_state(s.drop_last());
        if s.last() == '\n' {
            (done.push(strip_cr(cur)), seq![])
        } else {
            (done, cur.push(s.last()))
        }
    }
}

/// `str::lines`: split at `\n` (dropping a `\r` right before it); a final line
/// ending does not start a new line.
pub open spec fn lines(s: Seq<char>) -> Seq<Seq<char>> {
    let (done, cur) = lines_state(s);
    if cur.len() > 0 {
        done.push(cur)
    } else {
        done
    }
}

/// `parts.join(sep)`.
pub open spec fn join(parts: Seq<Seq<char>>, sep: Seq<char>) -> Seq<char>
    decreases parts.len(),
{
    if parts.len() == 0 {
        seq![]
    } else if parts.len() == 1 {
        parts[0]
    } else {
        join(parts.drop_last(), sep) + sep + parts.last()
    }
}

pub open spec fn digit_char(d: nat) -> char {
    (('0' as u32) + d) as char
}

/// Decimal rendering of a natural number (`to_string` on unsigned integers).
pub open spec fn decimal(n: nat) -> Seq<char>
    decreases n,
{
    if n < 10 {
        seq![digit_char(n)]
    } else {
        decimal(n / 10).push(digit_char(n % 10))
    }
}

/// Length in bytes of the UTF-8 encoding (`str::len`).
pub open spec fn utf8_len(s: Seq<char>) -> nat {
    vstd::utf8::encode_utf8(s).len()
}

/// Bytes taken by one character in UTF-8.
pub open spec fn char_utf8_len(c: char) -> nat {
    let v = c as u32;
    if v <= 0x7F {
        1
    } else if v <= 0x7FF {
        2
    } else if v <= 0xFFFF {
        3
    } else {
        4
    }
}

/// Sum of the UTF-8 widths of the characters.
pub open spec fn byte_len(s: Seq<char>) -> nat
    decreases s.len(),
{
    if s.len() == 0 {
        0
    } else {
        char_utf8_len(s[0]) + byte_len(s.drop_first())
    }
}

pub open spec fn views_of(v: Seq<Vec<char>>) -> Seq<Seq<char>> {
    v.map_values(|x: Vec<char>| x@)
}

pub open spec fn string_views(v: Seq<String>) -> Seq<Seq<char>> {
    v.map_values(|x: String| x@)
}

// ---------------------------------------------------------------------------
// Lemmas
// ---------------------------------------------------------------------------

pub proof fn lemma_take_push(s: Seq<char>, i: int)
    requires
        0 <= i < s.len(),
    ensures
        s.take(i + 1).drop_last() == s.take(i),
        s.take(i + 1).last() == s[i],
        s.take(i).push(s[i]) == s.take(i + 1),
{
    assert(s.take(i + 1).drop_last() =~= s.take(i));
    assert(s.take(i).push(s[i]) =~= s.take(i + 1));
}

pub proof fn lemma_index_of(s: Seq<char>, c: char, i: int)
    requires
        0 <= i <= s.len(),
        forall|j: int| 0 <= j < i ==> s[j] != c,
        i == s.len() || s[i] == c,
    ensures
        index_of(s, c) == i,
    decreases s.len(),
{
    if s.len() > 0 && s[0] != c {
        assert forall|j: int| 0 <= j < i - 1 implies s.drop_first()[j] != c by {
            assert(s.drop_first()[j] == s[j + 1]);
        }
        lemma_index_of(s.drop_first(), c, i - 1);
    }
}

pub proof fn lemma_trim_start_skip(s: Seq<char>, lo: int)
    requires
        0 <= lo < s.len(),
        is_ws(s[lo]),
    ensures
        trim_start(s.subrange(lo, s.len() as int)) == trim_start(s.subrange(lo + 1, s.len() as int)),
{
    let t = s.subrange(lo, s.len() as int);
    assert(t.drop_first() =~= s.subrange(lo + 1, s.len() as int));
}

pub proof fn lemma_trim_end_skip(s: Seq<char>, lo: int, hi: int)
    requires
        0 <= lo < hi <= s.len(),
        is_ws(s[hi - 1]),
    ensures
        trim_end(s.subrange(lo, hi)) == trim_end(s.subrange(lo, hi - 1)),
{
    let t = s.subrange(lo, hi);
    assert(t.drop_last() =~= s.subrange(lo, hi - 1));
}

proof fn lemma_trim_start_head(s: Seq<char>)
    ensures
        trim_start(s).len() == 0 || !is_ws(trim_start(s)[0]),
    decreases s.len(),
{
    if s.len() > 0 && is_ws(s[0]) {
        lemma_trim_start_head(s.drop_first());
    }
}

proof fn lemma_trim_end_prefix(s: Seq<char>)
    ensures
        trim_end(s).len() <= s.len(),
        trim_end(s) == s.take(trim_end(s).len() as int),
        trim_end(s).len() == 0 || !is_ws(trim_end(s).last()),
    decreases s.len(),
{
    if s.len() > 0 && is_ws(s.last()) {
        lemma_trim_end_prefix(s.drop_last());
        let k = trim_end(s).len() as int;
        assert(s.drop_last().take(k) =~= s.take(k));
    } else {
        assert(s.take(s.len() as int) =~= s);
    }
}

/// Trimming twice is trimming once.
pub proof fn lemma_trim_idempotent(s: Seq<char>)
    ensures
        trim(trim(s)) == trim(s),
{
    let ts = trim_start(s);
    let t = trim_end(ts);
    lemma_trim_start_head(s);
    lemma_trim_end_prefix(ts);
    if t.len() > 0 {
        assert(t[0] == ts[0]);
        assert(trim_start(t) == t);
        assert(trim_end(t) == t);
    }
}

pub proof fn lemma_decimal_nonempty(n: nat)
    ensures
        decimal(n).len() >= 1,
        forall|i: int| 0 <= i < decimal(n).len() ==> '0' <= #[trigger] decimal(n)[i] <= '9',
    decreases n,
{
    if n >= 10 {
        lemma_decimal_nonempty(n / 10);
    }
}

/// The widths add up to the length of the UTF-8 encoding.
pub proof fn lemma_byte_len_is_utf8_len(s: Seq<char>)
    ensures
        byte_len(s) == utf8_len(s),
    decreases s.len(),
{
    if s.len() > 0 {
        vstd::utf8::char_is_scalar(s[0]);
        lemma_byte_len_is_utf8_len(s.drop_first());
    }
}

pub proof fn lemma_byte_len_append(a: Seq<char>, b: Seq<char>)
    ensures
        byte_len(a + b) == byte_len(a) + byte_len(b),
    decreases a.len(),
{
    if a.len() > 0 {
        assert((a + b).drop_first() =~= a.drop_first() + b);
        lemma_byte_len_append(a.drop_first(), b);
    }
}

// ---------------------------------------------------------------------------
// Executable helpers
// ---------------------------------------------------------------------------

/// The characters of `s`.
pub fn chars_of(s: &str) -> (v: Vec<char>)
    ensures
        v@ == s@,
{
    let mut v: Vec<char> = Vec::new();
    for c in it: s.chars()
        invariant
            v@ == it.seq().take(it.index() as int),
            it.seq() == s@,
    {
        v.push(c);
    }
    v
}

/// Appends one character to a `String` (`String::push`).
#[verifier::external_body]
fn push_char(s: &mut String, c: char)
    ensures
        final(s)@ == old(s)@.push(c),
{
    s.push(c);
}

/// The `String` holding exactly the given characters.
pub fn string_of(cs: &[char]) -> (r: String)
    ensures
        r@ == cs@,
{
    let mut r = String::new();
    let mut i: usize = 0;
    while i < cs.len()
        invariant
            i <= cs.len(),
            r@ == cs@.take(i as int),
        decreases cs.len() - i,
    {
        push_char(&mut r, cs[i]);
        proof {
            lemma_take_push(cs@, i as int);
        }
        i += 1;
    }
    assert(cs@.take(cs.len() as int) =~= cs@);
    r
}

pub fn is_ws_char(c: char) -> (b: bool)
    ensures
        b == is_ws(c),
{
    ('\t' <= c && c <= '\r') || c == ' ' || c == '\u{85}' || c == '\u{A0}' || c == '\u{1680}'
        || ('\u{2000}' <= c && c <= '\u{200A}') || c == '\u{2028}' || c == '\u{2029}'
        || c == '\u{202F}' || c == '\u{205F}' || c == '\u{3000}'
}

pub fn is_ascii_alnum_char(c: char) -> (b: bool)
    ensures
        b == is_ascii_alnum(c),
{
    ('a' <= c && c <= 'z') || ('A' <= c && c <= 'Z') || ('0' <= c && c <= '9')
}

pub fn is_ascii_alpha_char(c: char) -> (b: bool)
    ensures
        b == is_ascii_alpha(c),
{
    ('a' <= c && c <= 'z') || ('A' <= c && c <= 'Z')
}

pub fn ascii_lower_char(c: char) -> (r: char)
    ensures
        r == ascii_lower(c),
{
    if 'A' <= c && c <= 'Z' {
        let u: u32 = c as u32;
        assert(65 <= u <= 90);
        let l: u32 = u + 32;
        assert(97 <= l <= 122);
        char_from_ascii_lower(l)
    } else {
        c
    }
}

fn char_from_ascii_lower(l: u32) -> (r: char)
    requires
        97 <= l <= 122,
    ensures
        r == l as char,
{
    let b: u8 = l as u8;
    b as char
}

/// `s` with every ASCII capital letter lowered (`str::to_ascii_lowercase`).
pub fn lower_chars(s: &[char]) -> (r: Vec<char>)
    ensures
        r@ == lower_all(s@),
{
    let mut r: Vec<char> = Vec::new();
    let mut i: usize = 0;
    while i < s.len()
        invariant
            i <= s.len(),
            r@ == lower_all(s@.take(i as int)),
        decreases s.len() - i,
    {
        r.push(ascii_lower_char(s[i]));
        i += 1;
        assert(lower_all(s@.take(i as int)) =~= r@);
    }
    assert(s@.take(s.len() as int) =~= s@);
    r
}

fn char_width(c: char) -> (w: usize)
    ensures
        w == char_utf8_len(c),
{
    let v: u32 = c as u32;
    if v <= 0x7F {
        1
    } else if v <= 0x7FF {
        2
    } else if v <= 0xFFFF {
        3
    } else {
        4
    }
}

/// Whether the UTF-8 encoding of `cs` is longer than `limit` bytes.
pub fn utf8_len_exceeds(cs: &[char], limit: usize) -> (b: bool)
    ensures
        b == (utf8_len(cs@) > limit),
{
    proof {
        lemma_byte_len_is_utf8_len(cs@);
    }
    let mut total: usize = 0;
    let mut i: usize = 0;
    while i < cs.len()
        invariant
            i <= cs.len(),
            total == byte_len(cs@.take(i as int)),
            total <= limit,
            byte_len(cs@) == utf8_len(cs@),
        decreases cs.len() - i,
    {
        let w = char_width(cs[i]);
        proof {
            lemma_take_push(cs@, i as int);
            lemma_byte_len_append(cs@.take(i as int), seq![cs@[i as int]]);
            assert(cs@.take(i as int) + seq![cs@[i as int]] =~= cs@.take(i + 1));
            assert(byte_len(seq![cs@[i as int]]) == char_utf8_len(cs@[i as int])) by {
                assert(seq![cs@[i as int]].drop_first() =~= Seq::<char>::empty());
                assert(byte_len(Seq::<char>::empty()) == 0);
            }
        }
        if w > limit - total {
            proof {
                lemma_byte_len_append(cs@.take(i + 1), cs@.skip(i + 1));
                assert(cs@.take(i + 1) + cs@.skip(i + 1) =~= cs@);
            }
            return true;
        }
        total = total + w;
        i += 1;
    }
    assert(cs@.take(cs.len() as int) =~= cs@);
    false
}

/// Characters `lo..hi` of `s`.
pub fn sub_chars(s: &[char], lo: usize, hi: usize) -> (r: Vec<char>)
    requires
        lo <= hi <= s.len(),
    ensures
        r@ == s@.subrange(lo as int, hi as int),
{
    let mut r: Vec<char> = Vec::new();
    let mut i: usize = lo;
    while i < hi
        invariant
            lo <= i <= hi <= s.len(),
            r@ == s@.subrange(lo as int, i as int),
        decreases hi - i,
    {
        r.push(s[i]);
        i += 1;
        assert(r@ =~= s@.subrange(lo as int, i as int));
    }
    r
}

/// Concatenation of two character sequences.
pub fn concat_chars(a: &[char], b: &[char]) -> (r: Vec<char>)
    ensures
        r@ == a@ + b@,
{
    let mut r: Vec<char> = Vec::new();
    let mut i: usize = 0;
    while i < a.len()
        invariant
            i <= a.len(),
            r@ == a@.take(i as int),
        decreases a.len() - i,
    {
        r.push(a[i]);
        proof {
            lemma_take_push(a@, i as int);
        }
        i += 1;
    }
    let mut j: usize = 0;
    while j < b.len()
        invariant
            j <= b.len(),
            i == a.len(),
            r@ == a@ + b@.take(j as int),
        decreases b.len() - j,
    {
        r.push(b[j]);
        proof {
            lemma_take_push(b@, j as int);
            assert(a@ + b@.take(j + 1) =~= (a@ + b@.take(j as int)).push(b@[j as int]));
        }
        j += 1;
    }
    assert(b@.take(b.len() as int) =~= b@);
    r
}

/// Appends `b` to `r`.
pub fn append_chars(r: &mut Vec<char>, b: &[char])
    ensures
        final(r)@ == old(r)@ + b@,
{
    let mut j: usize = 0;
    while j < b.len()
        invariant
            j <= b.len(),
            r@ == old(r)@ + b@.take(j as int),
        decreases b.len() - j,
    {
        r.push(b[j]);
        proof {
            lemma_take_push(b@, j as int);
            assert(old(r)@ + b@.take(j + 1) =~= (old(r)@ + b@.take(j as int)).push(b@[j as int]));
        }
        j += 1;
    }
    assert(b@.take(b.len() as int) =~= b@);
}

/// Appends the characters of `b` to `r`.
pub fn append_str(r: &mut Vec<char>, b: &str)
    ensures
        final(r)@ == old(r)@ + b@,
{
    let cs = chars_of(b);
    append_chars(r, &cs);
}

pub fn chars_eq(a: &[char], b: &[char]) -> (r: bool)
    ensures
        r == (a@ == b@),
{
    if a.len() != b.len() {
        return false;
    }
    let mut i: usize = 0;
    while i < a.len()
        invariant
            i <= a.len(),
            a.len() == b.len(),
            forall|j: int| 0 <= j < i ==> a@[j] == b@[j],
        decreases a.len() - i,
    {
        if a[i] != b[i] {
            return false;
        }
        i += 1;
    }
    assert(a@ =~= b@);
    true
}

/// Whether the characters of `a` spell exactly the string `b`.
pub fn chars_eq_str(a: &[char], b: &str) -> (r: bool)
    ensures
        r == (a@ == b@),
{
    let bs = chars_of(b);
    chars_eq(a, &bs)
}

pub fn str_eq(a: &str, b: &str) -> (r: bool)
    ensures
        r == (a@ == b@),
{
    let ac = chars_of(a);
    chars_eq_str(&ac, b)
}

pub fn occurs_at_exec(s: &[char], p: &[char], i: usize) -> (r: bool)
    requires
        i <= s.len(),
    ensures
        r == occurs_at(s@, p@, i as int),
{
    if p.len() > s.len() - i {
        return false;
    }
    let mut j: usize = 0;
    while j < p.len()
        invariant
            j <= p.len(),
            i + p.len() <= s.len(),
            forall|k: int| 0 <= k < j ==> s@[i + k] == p@[k],
        decreases p.len() - j,
    {
        if s[i + j] != p[j] {
            assert(s@.subrange(i as int, i + p.len())[j as int] != p@[j as int]);
            return false;
        }
        j += 1;
    }
    assert(s@.subrange(i as int, i + p.len()) =~= p@);
    true
}

pub fn starts_with_chars(s: &[char], p: &[char]) -> (r: bool)
    ensures
        r == starts_with(s@, p@),
{
    occurs_at_exec(s, p, 0)
}

pub fn starts_with_str(s: &[char], p: &str) -> (r: bool)
    ensures
        r == starts_with(s@, p@),
{
    let pc = chars_of(p);
    starts_with_chars(s, &pc)
}

pub fn ends_with_chars(s: &[char], p: &[char]) -> (r: bool)
    ensures
        r == ends_with(s@, p@),
{
    if p.len() > s.len() {
        return false;
    }
    occurs_at_exec(s, p, s.len() - p.len())
}

pub fn ends_with_str(s: &[char], p: &str) -> (r: bool)
    ensures
        r == ends_with(s@, p@),
{
    let pc = chars_of(p);
    ends_with_chars(s, &pc)
}

/// First position at which `p` occurs in `s`, if any.
pub fn find_chars(s: &[char], p: &[char]) -> (r: Option<usize>)
    ensures
        r is Some <==> contains(s@, p@),
        r matches Some(i) ==> occurs_at(s@, p@, i as int) && forall|k: int|
            0 <= k < i ==> !occurs_at(s@, p@, k),
{
    if p.len() > s.len() {
        return None;
    }
    if p.len() == 0 {
        assert(s@.subrange(0, 0) =~= p@);
        assert(occurs_at(s@, p@, 0));
        return Some(0);
    }
    let mut i: usize = 0;
    while i <= s.len() - p.len()
        invariant
            0 < p.len() <= s.len(),
            i <= s.len() - p.len() + 1,
            forall|k: int| 0 <= k < i ==> !occurs_at(s@, p@, k),
        decreases s.len() - p.len() + 1 - i,
    {
        if occurs_at_exec(s, p, i) {
            return Some(i);
        }
        i += 1;
    }
    assert forall|k: int| !occurs_at(s@, p@, k) by {
        if 0 <= k < i {
        }
    }
    None
}

pub fn contains_chars(s: &[char], p: &[char]) -> (r: bool)
    ensures
        r == contains(s@, p@),
{
    find_chars(s, p).is_some()
}

pub fn contains_str(s: &[char], p: &str) -> (r: bool)
    ensures
        r == contains(s@, p@),
{
    let pc = chars_of(p);
    contains_chars(s, &pc)
}

pub fn has_char_exec(s: &[char], c: char) -> (r: bool)
    ensures
        r == has_char(s@, c),
{
    let mut i: usize = 0;
    while i < s.len()
        invariant
            i <= s.len(),
            forall|j: int| 0 <= j < i ==> s@[j] != c,
        decreases s.len() - i,
    {
        if s[i] == c {
            return true;
        }
        i += 1;
    }
    false
}

/// Bounds `lo..hi` of `trim(s)` inside `s`.
pub fn trim_bounds(s: &[char]) -> (r: (usize, usize))
    ensures
        r.0 <= r.1 <= s.len(),
        s@.subrange(r.0 as int, r.1 as int) == trim(s@),
{
    let mut lo: usize = 0;
    assert(s@.subrange(0, s@.len() as int) =~= s@);
    while lo < s.len() && is_ws_char(s[lo])
        invariant
            lo <= s.len(),
            trim_start(s@.subrange(lo as int, s.len() as int)) == trim_start(s@),
        decreases s.len() - lo,
    {
        proof {
            lemma_trim_start_skip(s@, lo as int);
        }
        lo += 1;
    }
    let ghost ts = s@.subrange(lo as int, s.len() as int);
    assert(trim_start(ts) == ts);
    let mut hi: usize = s.len();
    while hi > lo && is_ws_char(s[hi - 1])
        invariant
            lo <= hi <= s.len(),
            trim_end(s@.subrange(lo as int, hi as int)) == trim(s@),
        decreases hi,
    {
        proof {
            lemma_trim_end_skip(s@, lo as int, hi as int);
        }
        hi -= 1;
    }
    let ghost t = s@.subrange(lo as int, hi as int);
    if hi > lo {
        assert(t.last() == s@[hi - 1]);
    }
    assert(trim_end(t) == t);
    (lo, hi)
}

/// `trim_start(s)` as a new vector.
pub fn trim_start_chars(s: &[char]) -> (r: Vec<char>)
    ensures
        r@ == trim_start(s@),
{
    let mut lo: usize = 0;
    assert(s@.subrange(0, s@.len() as int) =~= s@);
    while lo < s.len() && is_ws_char(s[lo])
        invariant
            lo <= s.len(),
            trim_start(s@.subrange(lo as int, s.len() as int)) == trim_start(s@),
        decreases s.len() - lo,
    {
        proof {
            lemma_trim_start_skip(s@, lo as int);
        }
        lo += 1;
    }
    let r = sub_chars(s, lo, s.len());
    assert(trim_start(r@) == r@);
    r
}

/// `trim(s)` as a new vector.
pub fn trim_chars(s: &[char]) -> (r: Vec<char>)
    ensures
        r@ == trim(s@),
{
    let (lo, hi) = trim_bounds(s);
    sub_chars(s, lo, hi)
}

/// `s.split_whitespace()`.
pub fn split_ws_chars(s: &[char]) -> (r: Vec<Vec<char>>)
    ensures
        views_of(r@) == split_ws(s@),
{
    let mut done: Vec<Vec<char>> = Vec::new();
    let mut cur: Vec<char> = Vec::new();
    let mut i: usize = 0;
    while i < s.len()
        invariant
            i <= s.len(),
            (views_of(done@), cur@) == ws_split_state(s@.take(i as int)),
        decreases s.len() - i,
    {
        proof {
            lemma_take_push(s@, i as int);
        }
        let c = s[i];
        if is_ws_char(c) {
            if cur.len() > 0 {
                let ghost old_done = done@;
                done.push(cur);
                cur = Vec::new();
                assert(views_of(done@) =~= views_of(old_done).push(views_of(done@).last()));
            }
        } else {
            cur.push(c);
        }
        i += 1;
    }
    assert(s@.take(s.len() as int) =~= s@);
    if cur.len() > 0 {
        let ghost old_done = done@;
        done.push(cur);
        assert(views_of(done@) =~= views_of(old_done).push(views_of(done@).last()));
    }
    done
}

/// `s.split(sep)`.
pub fn split_on_chars(s: &[char], sep: char) -> (r: Vec<Vec<char>>)
    ensures
        views_of(r@) == split_on(s@, sep),
{
    let mut done: Vec<Vec<char>> = Vec::new();
    let mut cur: Vec<char> = Vec::new();
    let mut i: usize = 0;
    while i < s.len()
        invariant
            i <= s.len(),
            (views_of(done@), cur@) == split_state(s@.take(i as int), sep),
        decreases s.len() - i,
    {
        proof {
            lemma_take_push(s@, i as int);
        }
        let c = s[i];
        if c == sep {
            let ghost old_done = done@;
            done.push(cur);
            cur = Vec::new();
            assert(views_of(done@) =~= views_of(old_done).push(views_of(done@).last()));
        } else {
            cur.push(c);
        }
        i += 1;
    }
    assert(s@.take(s.len() as int) =~= s@);
    let ghost old_done = done@;
    done.push(cur);
    assert(views_of(done@) =~= views_of(old_done).push(views_of(done@).last()));
    done
}

fn strip_cr_vec(v: Vec<char>) -> (r: Vec<char>)
    ensures
        r@ == strip_cr(v@),
{
    let mut v = v;
    if v.len() > 0 && v[v.len() - 1] == '\r' {
        v.pop();
    }
    v
}

/// `s.lines()`.
pub fn lines_chars(s: &[char]) -> (r: Vec<Vec<char>>)
    ensures
        views_of(r@) == lines(s@),
{
    let mut done: Vec<Vec<char>> = Vec::new();
    let mut cur: Vec<char> = Vec::new();
    let mut i: usize = 0;
    while i < s.len()
        invariant
            i <= s.len(),
            (views_of(done@), cur@) == lines_state(s@.take(i as int)),
        decreases s.len() - i,
    {
        proof {
            lemma_take_push(s@, i as int);
        }
        let c = s[i];
        if c == '\n' {
            let ghost old_done = done@;
            let line = strip_cr_vec(cur);
            done.push(line);
            cur = Vec::new();
            assert(views_of(done@) =~= views_of(old_done).push(views_of(done@).last()));
        } else {
            cur.push(c);
        }
        i += 1;
    }
    assert(s@.take(s.len() as int) =~= s@);
    if cur.len() > 0 {
        let ghost old_done = done@;
        done.push(cur);
        assert(views_of(done@) =~= views_of(old_done).push(views_of(done@).last()));
    }
    done
}

/// `parts.join(sep)`.
pub fn join_chars(parts: &Vec<Vec<char>>, sep: &[char]) -> (r: Vec<char>)
    ensures
        r@ == join(views_of(parts@), sep@),
{
    let mut r: Vec<char> = Vec::new();
    let mut i: usize = 0;
    while i < parts.len()
        invariant
            i <= parts.len(),
            r@ == join(views_of(parts@).take(i as int), sep@),
        decreases parts.len() - i,
    {
        let ghost pv = views_of(parts@);
        assert(pv.take(i + 1).drop_last() =~= pv.take(i as int));
        assert(pv.take(i + 1).last() == parts@[i as int]@);
        if i > 0 {
            append_chars(&mut r, sep);
        }
        append_chars(&mut r, &parts[i]);
        if i == 0 {
            assert(r@ =~= pv.take(1)[0]);
        }
        i += 1;
    }
    assert(views_of(parts@).take(parts.len() as int) =~= views_of(parts@));
    r
}

/// `parts.join(sep)` for strings.
pub fn join_strings(parts: &Vec<String>, sep: &str) -> (r: Vec<char>)
    ensures
        r@ == join(string_views(parts@), sep@),
{
    let mut vs: Vec<Vec<char>> = Vec::new();
    let mut i: usize = 0;
    while i < parts.len()
        invariant
            i <= parts.len(),
            vs.len() == i,
            views_of(vs@) == string_views(parts@).take(i as int),
        decreases parts.len() - i,
    {
        let c = chars_of(parts[i].as_str());
        let ghost old_vs = vs@;
        vs.push(c);
        assert(vs@[i as int]@ == parts@[i as int]@);
        assert(views_of(vs@) =~= views_of(old_vs).push(parts@[i as int]@));
        i += 1;
        assert(views_of(vs@) =~= string_views(parts@).take(i as int));
    }
    assert(string_views(parts@).take(parts.len() as int) =~= string_views(parts@));
    let sc = chars_of(sep);
    join_chars(&vs, &sc)
}

/// Decimal digits of `n`.
pub fn decimal_chars(n: u64) -> (r: Vec<char>)
    ensures
        r@ == decimal(n as nat),
    decreases n,
{
    if n < 10 {
        let mut r: Vec<char> = Vec::new();
        r.push(digit(n));
        assert(r@ =~= seq![digit_char(n as nat)]);
        r
    } else {
        let mut r = decimal_chars(n / 10);
        r.push(digit(n % 10));
        r
    }
}

fn digit(d: u64) -> (c: char)
    requires
        d < 10,
    ensures
        c == digit_char(d as nat),
{
    let b: u8 = 48u8 + (d as u8);
    b as char
}

/// Collects the characters of every string.
pub fn chars_of_all(v: &Vec<String>) -> (r: Vec<Vec<char>>)
    ensures
        views_of(r@) == string_views(v@),
{
    let mut r: Vec<Vec<char>> = Vec::new();
    let mut i: usize = 0;
    while i < v.len()
        invariant
            i <= v.len(),
            r.len() == i,
            views_of(r@) == string_views(v@).take(i as int),
        decreases v.len() - i,
    {
        let c = chars_of(v[i].as_str());
        let ghost old_r = r@;
        r.push(c);
        assert(r@[i as int]@ == v@[i as int]@);
        assert(views_of(r@) =~= views_of(old_r).push(v@[i as int]@));
        i += 1;
        assert(views_of(r@) =~= string_views(v@).take(i as int));
    }
    assert(string_views(v@).take(v.len() as int) =~= string_views(v@));
    r
}

/// Builds one `String` per character vector.
pub fn strings_of_all(v: &Vec<Vec<char>>) -> (r: Vec<String>)
    ensures
        string_views(r@) == views_of(v@),
{
    let mut r: Vec<String> = Vec::new();
    let mut i: usize = 0;
    while i < v.len()
        invariant
            i <= v.len(),
            r.len() == i,
            string_views(r@) == views_of(v@).take(i as int),
        decreases v.len() - i,
    {
        let sv = string_of(&v[i]);
        let ghost old_r = r@;
        r.push(sv);
        assert(r@[i as int]@ == v@[i as int]@);
        assert(string_views(r@) =~= string_views(old_r).push(v@[i as int]@));
        i += 1;
        assert(string_views(r@) =~= views_of(v@).take(i as int));
    }
    assert(views_of(v@).take(v.len() as int) =~= views_of(v@));
    r
}

/// A hexadecimal digit in lower case.
pub open spec fn hex_digit(d: nat) -> char {
    if d < 10 {
        (('0' as u32) + d) as char
    } else {
        (('a' as u32) + d - 10) as char
    }
}

/// Lower-case hexadecimal digits of `n`, without leading zeros.
pub open spec fn hex(n: nat) -> Seq<char>
    decreases n,
{
    if n < 16 {
        seq![hex_digit(n)]
    } else {
        hex(n / 16).push(hex_digit(n % 16))
    }
}

/// Characters `{:?}` prints as `\u{..}`: the control characters, and the
/// space separators, format and combining characters listed here (other non-printable Unicode
/// characters are printed as themselves).
pub open spec fn debug_escaped_code(v: u32) -> bool {
    ||| v < 0x20
    ||| 0x7f <= v <= 0x9f
    ||| v == 0xa0
    ||| v == 0xad
    ||| 0x300 <= v <= 0x36f
    ||| v == 0x61c
    ||| v == 0x1680
    ||| v == 0x180e
    ||| 0x2000 <= v <= 0x200f
    ||| 0x2028 <= v <= 0x202f
    ||| 0x205f <= v <= 0x2064
    ||| 0x2066 <= v <= 0x206f
    ||| v == 0x3000
    ||| v == 0xfeff
    ||| 0xfff9 <= v <= 0xfffb
}

/// The escape `{:?}` prints for a character inside the quote `q` (`'` for a
/// `char`, `"` for a string): the named escapes, the quote itself escaped,
/// `\u{..}` for the escaped codes, the character itself otherwise.
pub open spec fn debug_body(c: char, q: char) -> Seq<char> {
    if c == '\0' {
        "\\0"@
    } else if c == '\t' {
        "\\t"@
    } else if c == '\r' {
        "\\r"@
    } else if c == '\n' {
        "\\n"@
    } else if c == q {
        seq!['\\', q]
    } else if c == '\\' {
        "\\\\"@
    } else if debug_escaped_code(c as u32) {
        "\\u{"@ + hex(c as u32 as nat) + "}"@
    } else {
        seq![c]
    }
}

/// A character as `{:?}` prints it, in single quotes.
pub open spec fn debug_char(c: char) -> Seq<char> {
    "'"@ + debug_body(c, '\'') + "'"@
}

pub open spec fn debug_str_body(s: Seq<char>) -> Seq<char>
    decreases s.len(),
{
    if s.len() == 0 {
        seq![]
    } else {
        debug_str_body(s.drop_last()) + debug_body(s.last(), '"')
    }
}

/// A string as `{:?}` prints it, in double quotes.
pub open spec fn debug_str(s: Seq<char>) -> Seq<char> {
    "\""@ + debug_str_body(s) + "\""@
}

fn hex_digit_exec(d: u32) -> (c: char)
    requires
        d < 16,
    ensures
        c == hex_digit(d as nat),
{
    if d < 10 {
        let b: u8 = 48u8 + (d as u8);
        b as char
    } else {
        let b: u8 = 97u8 + ((d - 10) as u8);
        b as char
    }
}

fn push_hex(out: &mut Vec<char>, n: u32)
    ensures
        final(out)@ == old(out)@ + hex(n as nat),
    decreases n,
{
    if n < 16 {
        out.push(hex_digit_exec(n));
    } else {
        push_hex(out, n / 16);
        out.push(hex_digit_exec(n % 16));
    }
}

fn debug_escaped_code_exec(v: u32) -> (b: bool)
    ensures
        b == debug_escaped_code(v),
{
    v < 0x20 || (0x7f <= v && v <= 0x9f) || v == 0xa0 || v == 0xad || (0x300 <= v && v <= 0x36f)
        || v == 0x61c || v == 0x1680 || v == 0x180e || (0x2000 <= v && v <= 0x200f) || (0x2028 <= v
        && v <= 0x202f) || (0x205f <= v && v <= 0x2064) || (0x2066 <= v && v <= 0x206f) || v
        == 0x3000 || v == 0xfeff || (0xfff9 <= v && v <= 0xfffb)
}

fn push_debug_body(out: &mut Vec<char>, c: char, q: char)
    ensures
        final(out)@ == old(out)@ + debug_body(c, q),
{
    if c == '\0' {
        append_str(out, "\\0");
    } else if c == '\t' {
        append_str(out, "\\t");
    } else if c == '\r' {
        append_str(out, "\\r");
    } else if c == '\n' {
        append_str(out, "\\n");
    } else if c == q {
        out.push('\\');
        out.push(q);
        assert(out@ =~= old(out)@ + seq!['\\', q]);
    } else if c == '\\' {
        append_str(out, "\\\\");
    } else if debug_escaped_code_exec(c as u32) {
        append_str(out, "\\u{");
        push_hex(out, c as u32);
        append_str(out, "}");
    } else {
        out.push(c);
    }
}

/// Appends a character as `{:?}` prints it.
pub fn push_debug_char(out: &mut Vec<char>, c: char)
    ensures
        final(out)@ == old(out)@ + debug_char(c),
{
    append_str(out, "'");
    push_debug_body(out, c, '\'');
    append_str(out, "'");
    assert(out@ =~= old(out)@ + debug_char(c));
}

/// Appends a string as `{:?}` prints it.
pub fn push_debug_str(out: &mut Vec<char>, s: &str)
    ensures
        final(out)@ == old(out)@ + debug_str(s@),
{
    let cs = chars_of(s);
    let ghost start = out@;
    append_str(out, "\"");
    let mut i: usize = 0;
    while i < cs.len()
        invariant
            i <= cs.len(),
            cs@ == s@,
            out@ == start + "\""@ + debug_str_body(cs@.take(i as int)),
        decreases cs.len() - i,
    {
        assert(cs@.take(i + 1).drop_last() =~= cs@.take(i as int));
        assert(cs@.take(i + 1).last() == cs@[i as int]);
        push_debug_body(out, cs[i], '"');
        i += 1;
    }
    assert(cs@.take(cs.len() as int) =~= cs@);
    append_str(out, "\"");
    assert(out@ =~= start + debug_str(s@));
}

} // verus!
