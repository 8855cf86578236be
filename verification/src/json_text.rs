//! Locating JSON payloads inside free-form model replies: the first balanced
//! `{...}` object (string literals and escapes respected) and the bodies of
//! Markdown code fences.
use vstd::prelude::*;

use crate::text::{
    join, lemma_take_push, lines, lines_chars, starts_with, starts_with_str, sub_chars,
    trim_start, trim_start_chars, views_of,
};

verus! {

/// State of the scan for the first balanced object after a prefix of the text.
pub struct ObjectScan {
    pub start: Option<int>,
    pub depth: int,
    pub in_string: bool,
    pub escaped: bool,
    pub end: Option<int>,
}

pub open spec fn scan_init() -> ObjectScan {
    ObjectScan { start: None, depth: 0, in_string: false, escaped: false, end: None }
}

/// One character of the scan: nothing happens before the first `{`; inside the
/// object quotes toggle string mode, a backslash escapes the next character of
/// a string, and braces outside strings change the depth; the object ends
/// right after the brace that brings the depth back to zero.
pub open spec fn scan_step(st: ObjectScan, c: char, idx: int) -> ObjectScan {
    if st.end is Some {
        st
    } else if st.start is None {
        if c == '{' {
            ObjectScan { start: Some(idx), depth: 1, ..st }
        } else {
            st
        }
    } else if st.escaped {
        ObjectScan { escaped: false, ..st }
    } else if c == '\\' && st.in_string {
        ObjectScan { escaped: true, ..st }
    } else if c == '"' {
        ObjectScan { in_string: !st.in_string, ..st }
    } else if st.in_string {
        st
    } else if c == '{' {
        ObjectScan { depth: st.depth + 1, ..st }
    } else if c == '}' {
        if st.depth <= 1 {
            ObjectScan { depth: 0, end: Some(idx + 1), ..st }
        } else {
            ObjectScan { depth: st.depth - 1, ..st }
        }
    } else {
        st
    }
}

pub open spec fn scan(s: Seq<char>, n: int) -> ObjectScan
    decreases n,
{
    if n <= 0 {
        scan_init()
    } else {
        scan_step(scan(s, n - 1), s[n - 1], n - 1)
    }
}

/// The first balanced JSON object of the text, if one closes.
pub open spec fn first_balanced_object_spec(s: Seq<char>) -> Option<Seq<char>> {
    let st = scan(s, s.len() as int);
    match st.end {
        Some(e) => Some(s.subrange(st.start->0, e)),
        None => None,
    }
}

pub open spec fn scan_wf(st: ObjectScan, n: int) -> bool {
    &&& st.start is None ==> st.depth == 0 && !st.in_string && !st.escaped && st.end is None
    &&& st.start matches Some(b) ==> 0 <= b < n
    &&& st.end matches Some(e) ==> st.start is Some && st.start->0 < e <= n
    &&& st.end is None && st.start is Some ==> 1 <= st.depth <= n
    &&& st.escaped ==> st.in_string
}

proof fn lemma_scan_wf(s: Seq<char>, n: int)
    requires
        0 <= n <= s.len(),
    ensures
        scan_wf(scan(s, n), n),
    decreases n,
{
    if n > 0 {
        lemma_scan_wf(s, n - 1);
    }
}

/// The first balanced `{...}` object in the text, if any.
pub fn first_balanced_json_object(text: &[char]) -> (r: Option<Vec<char>>)
    ensures
        match r {
            Some(v) => first_balanced_object_spec(text@) == Some(v@),
            None => first_balanced_object_spec(text@) is None,
        },
{
    let mut start: Option<usize> = None;
    let mut depth: usize = 0;
    let mut in_string = false;
    let mut escaped = false;
    let mut i: usize = 0;
    while i < text.len()
        invariant
            i <= text.len(),
            ({
                let st = scan(text@, i as int);
                &&& st.end is None
                &&& st.start == match start {
                    Some(b) => Some(b as int),
                    None => None::<int>,
                }
                &&& st.depth == depth as int
                &&& st.in_string == in_string
                &&& st.escaped == escaped
            }),
            scan_wf(scan(text@, i as int), i as int),
        decreases text.len() - i,
    {
        proof {
            lemma_scan_wf(text@, i + 1);
        }
        let ch = text[i];
        match start {
            None => {
                if ch == '{' {
                    start = Some(i);
                    depth = 1;
                }
            },
            Some(b) => {
                if escaped {
                    escaped = false;
                } else if ch == '\\' && in_string {
                    escaped = true;
                } else if ch == '"' {
                    in_string = !in_string;
                } else if in_string {
                } else if ch == '{' {
                    depth = depth + 1;
                } else if ch == '}' {
                    if depth <= 1 {
                        let obj = sub_chars(text, b, i + 1);
                        proof {
                            assert(scan(text@, i + 1).end == Some(i + 1));
                            lemma_scan_frozen(text@, i + 1, text.len() as int);
                        }
                        return Some(obj);
                    }
                    depth = depth - 1;
                }
            },
        }
        i += 1;
    }
    None
}

proof fn lemma_scan_frozen(s: Seq<char>, k: int, m: int)
    requires
        0 <= k <= m <= s.len(),
        scan(s, k).end is Some,
    ensures
        scan(s, m) == scan(s, k),
    decreases m - k,
{
    if m > k {
        lemma_scan_frozen(s, k, m - 1);
    }
}

// ---------------------------------------------------------------------------
// Code fences
// ---------------------------------------------------------------------------

/// A fence line starts (after leading whitespace) with three backticks.
pub open spec fn is_fence_line(line: Seq<char>) -> bool {
    starts_with(trim_start(line), "```"@)
}

/// Fold over the lines: finished blocks, whether a fence is open, and the lines
/// of the open block.
pub open spec fn fence_state(ls: Seq<Seq<char>>) -> (Seq<Seq<char>>, bool, Seq<Seq<char>>)
    decreases ls.len(),
{
    if ls.len() == 0 {
        (seq![], false, seq![])
    } else {
        let (blocks, active, cur) = fence_state(ls.drop_last());
        let line = ls.last();
        if is_fence_line(line) {
            if active {
                (blocks.push(join(cur, seq!['\n'])), false, seq![])
            } else {
                (blocks, true, cur)
            }
        } else if active {
            (blocks, active, cur.push(line))
        } else {
            (blocks, active, cur)
        }
    }
}

/// The bodies of the closed Markdown code fences, each joined with `\n`.
pub open spec fn fenced_blocks_spec(text: Seq<char>) -> Seq<Seq<char>> {
    fence_state(lines(text)).0
}

fn is_fence_line_exec(line: &[char]) -> (b: bool)
    ensures
        b == is_fence_line(line@),
{
    let rest = trim_start_chars(line);
    starts_with_str(&rest, "```")
}


/// The bodies of the closed Markdown code fences of the text, each joined with
/// `\n`; an unclosed fence yields nothing.
pub fn fenced_json_blocks(text: &[char]) -> (r: Vec<Vec<char>>)
    ensures
        views_of(r@) == fenced_blocks_spec(text@),
{
    let ls = lines_chars(text);
    let ghost lv = views_of(ls@);
    let mut blocks: Vec<Vec<char>> = Vec::new();
    let mut active = false;
    let mut current: Vec<Vec<char>> = Vec::new();
    let mut i: usize = 0;
    while i < ls.len()
        invariant
            i <= ls.len(),
            lv == views_of(ls@),
            lv == lines(text@),
            (views_of(blocks@), active, views_of(current@)) == fence_state(lv.take(i as int)),
        decreases ls.len() - i,
    {
        proof {
            assert(lv.take(i + 1).drop_last() =~= lv.take(i as int));
            assert(lv.take(i + 1).last() == ls@[i as int]@);
        }
        if is_fence_line_exec(&ls[i]) {
            if active {
                let nl: [char; 1] = ['\n'];
                let joined = crate::text::join_chars(&current, &nl);
                assert(nl@ =~= seq!['\n']);
                let ghost old_blocks = blocks@;
                blocks.push(joined);
                assert(views_of(blocks@) =~= views_of(old_blocks).push(joined@));
                current = Vec::new();
                assert(views_of(current@) =~= Seq::<Seq<char>>::empty());
                active = false;
            } else {
                active = true;
            }
        } else if active {
            let line = sub_chars(&ls[i], 0, ls[i].len());
            assert(line@ =~= ls@[i as int]@);
            let ghost old_cur = current@;
            current.push(line);
            assert(views_of(current@) =~= views_of(old_cur).push(ls@[i as int]@));
        }
        i += 1;
    }
    assert(lv.take(ls.len() as int) =~= lv);
    blocks
}

} // verus!
