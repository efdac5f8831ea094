//! Cursor context in GLSL source: whether a position lies in a comment or a
//! string literal, and which function call (and which argument) encloses it.
use vstd::prelude::*;
use crate::text::{
    chars_of, is_ident_char, lead, lemma_lead, lemma_trail, lemma_trail_facts, slice_of,
    char_floor, string_of, trail, trim, trim_end, trim_end_of, trim_of, eq,
};

verus! {

/// Scanner state while walking the text towards a cursor position.
pub struct CommentScan {
    pub line: nat,
    pub col: nat,
    pub in_line_comment: bool,
    pub in_block_comment: bool,
    pub in_string: bool,
    pub escaped: bool,
}

pub open spec fn scan_start() -> CommentScan {
    CommentScan {
        line: 0,
        col: 0,
        in_line_comment: false,
        in_block_comment: false,
        in_string: false,
        escaped: false,
    }
}

pub open spec fn inside(st: CommentScan) -> bool {
    st.in_line_comment || st.in_block_comment || st.in_string
}

/// The answer of the scan over `s` from index `i` on, in state `st`, for the
/// cursor at (`tl`, `tc`). A `"//"`, `"/*"` or `"*/"` is taken as one step,
/// so the position of its second character is never inspected.
pub open spec fn comment_scan(s: Seq<char>, i: int, st: CommentScan, tl: nat, tc: nat) -> bool
    decreases s.len() - i,
{
    if i < 0 || i >= s.len() {
        if st.line == tl {
            inside(st)
        } else {
            false
        }
    } else if st.line == tl && st.col >= tc {
        inside(st)
    } else {
        let c = s[i];
        let next_is = |d: char| i + 1 < s.len() && s[i + 1] == d;
        if c == '\n' {
            if st.line + 1 > tl {
                false
            } else {
                comment_scan(
                    s,
                    i + 1,
                    CommentScan { line: st.line + 1, col: 0, in_line_comment: false, ..st },
                    tl,
                    tc,
                )
            }
        } else {
            let st1 = CommentScan { col: st.col + 1, ..st };
            if st1.in_line_comment {
                comment_scan(s, i + 1, st1, tl, tc)
            } else if st1.in_block_comment {
                if c == '*' && next_is('/') {
                    comment_scan(
                        s,
                        i + 2,
                        CommentScan { col: st1.col + 1, in_block_comment: false, ..st1 },
                        tl,
                        tc,
                    )
                } else {
                    comment_scan(s, i + 1, st1, tl, tc)
                }
            } else if st1.in_string {
                if st1.escaped {
                    comment_scan(s, i + 1, CommentScan { escaped: false, ..st1 }, tl, tc)
                } else if c == '\\' {
                    comment_scan(s, i + 1, CommentScan { escaped: true, ..st1 }, tl, tc)
                } else if c == '"' {
                    comment_scan(s, i + 1, CommentScan { in_string: false, ..st1 }, tl, tc)
                } else {
                    comment_scan(s, i + 1, st1, tl, tc)
                }
            } else if c == '"' {
                comment_scan(s, i + 1, CommentScan { in_string: true, ..st1 }, tl, tc)
            } else if c == '/' && next_is('/') {
                comment_scan(
                    s,
                    i + 2,
                    CommentScan { col: st1.col + 1, in_line_comment: true, ..st1 },
                    tl,
                    tc,
                )
            } else if c == '/' && next_is('*') {
                comment_scan(
                    s,
                    i + 2,
                    CommentScan { col: st1.col + 1, in_block_comment: true, ..st1 },
                    tl,
                    tc,
                )
            } else {
                comment_scan(s, i + 1, st1, tl, tc)
            }
        }
    }
}

/// Whether the cursor at line `tl`, column `tc` (both 0-based, columns in
/// characters) lies inside a `//` comment, a `/* */` comment or a string literal.
pub open spec fn in_comment_or_string(s: Seq<char>, tl: nat, tc: nat) -> bool {
    comment_scan(s, 0, scan_start(), tl, tc)
}

/// Determines whether the cursor position (`target_line`, `target_col`) is
/// inside a comment or a string literal, in a single pass over the text.
pub fn is_in_comment_or_string(text: &str, target_line: usize, target_col: usize) -> (r: bool)
    ensures
        r == in_comment_or_string(text@, target_line as nat, target_col as nat),
{
    let s = chars_of(text);
    let n = s.len();
    let mut i: usize = 0;
    let mut line: usize = 0;
    let mut col: usize = 0;
    let mut in_line_comment = false;
    let mut in_block_comment = false;
    let mut in_string = false;
    let mut escaped = false;
    let ghost tl = target_line as nat;
    let ghost tc = target_col as nat;
    while i < n
        invariant
            n == s@.len(),
            s@ == text@,
            i <= n,
            line <= i,
            col <= i,
            tl == target_line,
            tc == target_col,
            comment_scan(s@, 0, scan_start(), tl, tc) == comment_scan(
                s@,
                i as int,
                CommentScan {
                    line: line as nat,
                    col: col as nat,
                    in_line_comment,
                    in_block_comment,
                    in_string,
                    escaped,
                },
                tl,
                tc,
            ),
        decreases n - i,
    {
        if line == target_line && col >= target_col {
            return in_line_comment || in_block_comment || in_string;
        }
        let c = s[i];
        let next_slash = i + 1 < n && s[i + 1] == '/';
        let next_star = i + 1 < n && s[i + 1] == '*';
        if c == '\n' {
            in_line_comment = false;
            line = line + 1;
            col = 0;
            if line > target_line {
                return false;
            }
            i = i + 1;
        } else {
            col = col + 1;
            if in_line_comment {
                i = i + 1;
            } else if in_block_comment {
                if c == '*' && next_slash {
                    col = col + 1;
                    in_block_comment = false;
                    i = i + 2;
                } else {
                    i = i + 1;
                }
            } else if in_string {
                if escaped {
                    escaped = false;
                } else if c == '\\' {
                    escaped = true;
                } else if c == '"' {
                    in_string = false;
                }
                i = i + 1;
            } else if c == '"' {
                in_string = true;
                i = i + 1;
            } else if c == '/' && next_slash {
                col = col + 1;
                in_line_comment = true;
                i = i + 2;
            } else if c == '/' && next_star {
                col = col + 1;
                in_block_comment = true;
                i = i + 2;
            } else {
                i = i + 1;
            }
        }
    }
    if line == target_line {
        in_line_comment || in_block_comment || in_string
    } else {
        false
    }
}

/// Keywords after which a `(` does not start a function call.
pub const CONTROL_KEYWORDS: [&'static str; 6] = ["if", "for", "while", "switch", "catch", "return"];

/// `w` is one of the strings in `list`.
pub open spec fn in_list<const N: usize>(w: Seq<char>, list: [&'static str; N]) -> bool {
    exists|i: int| 0 <= i < N && (#[trigger] list@[i])@ == w
}

/// Whether the characters `w` equal one of the strings in `list`.
pub fn word_in_list<const N: usize>(w: &Vec<char>, list: &[&'static str; N]) -> (r: bool)
    ensures
        r == in_list(w@, *list),
{
    let mut i: usize = 0;
    while i < N
        invariant
            i <= N,
            forall|j: int| 0 <= j < i ==> (#[trigger] list@[j])@ != w@,
        decreases N - i,
    {
        let cand = chars_of(list[i]);
        if eq(&cand, w) {
            return true;
        }
        i = i + 1;
    }
    false
}

/// Search for the start of line `l`: the first index at which `l` newlines
/// have been passed (`Some`), or `None` and the number of newlines passed.
pub open spec fn line_search(s: Seq<char>, idx: int, cur: nat, l: nat) -> (Option<int>, nat)
    decreases s.len() - idx,
{
    if idx < 0 || idx >= s.len() {
        (None, cur)
    } else if cur == l {
        (Some(idx), cur)
    } else {
        line_search(s, idx + 1, if s[idx] == '\n' { cur + 1 } else { cur }, l)
    }
}

pub open spec fn cr_pred() -> spec_fn(char) -> bool {
    |c: char| c == '\r'
}

/// Length of the line starting at `ls`, without its line break and without
/// trailing carriage returns.
pub open spec fn line_len_at(s: Seq<char>, ls: int) -> int {
    let rest = s.skip(ls);
    let raw = match crate::text::find(rest, seq!['\n']) {
        Some(k) => rest.take(k),
        None => rest,
    };
    raw.len() - trail(raw, cr_pred())
}

/// The line that starts at `ls`, without its line break and trailing carriage returns.
pub open spec fn line_at(s: Seq<char>, ls: int) -> Seq<char> {
    s.subrange(ls, ls + line_len_at(s, ls))
}

/// Index of the cursor at line `l`, byte column `c` (taken back to the last
/// character boundary at or before it, and clamped to the end of that line);
/// the end of the text when the text has fewer lines. When line `l` starts
/// exactly at the end of the text, the line measured is the first one.
pub open spec fn cursor_offset(s: Seq<char>, l: nat, c: nat) -> int {
    let (found, cur) = line_search(s, 0, 0, l);
    match found {
        Some(ls) => ls + char_floor(line_at(s, ls), c),
        None => if cur == l {
            char_floor(line_at(s, 0), c) as int
        } else {
            s.len() as int
        },
    }
}

/// Backwards scan from `idx` for the `(` that opens the call around it.
/// String literals are skipped; the scan stops at an unmatched `{` or at a
/// `;` outside all brackets.
pub open spec fn back_scan(s: Seq<char>, idx: int, in_str: bool, d: nat, bd: nat, cd: nat) -> Option<int>
    decreases idx,
{
    if idx <= 0 || idx > s.len() {
        None
    } else {
        let j = idx - 1;
        let c = s[j];
        if in_str {
            if c == '"' && (j == 0 || s[j - 1] != '\\') {
                back_scan(s, j, false, d, bd, cd)
            } else {
                back_scan(s, j, true, d, bd, cd)
            }
        } else if c == '"' {
            back_scan(s, j, true, d, bd, cd)
        } else if c == ')' {
            back_scan(s, j, false, d + 1, bd, cd)
        } else if c == ']' {
            back_scan(s, j, false, d, bd + 1, cd)
        } else if c == '}' {
            back_scan(s, j, false, d, bd, cd + 1)
        } else if c == '(' {
            if d > 0 {
                back_scan(s, j, false, (d - 1) as nat, bd, cd)
            } else if bd == 0 && cd == 0 {
                Some(j)
            } else {
                back_scan(s, j, false, d, bd, cd)
            }
        } else if c == '[' {
            back_scan(s, j, false, d, if bd > 0 { (bd - 1) as nat } else { bd }, cd)
        } else if c == '{' {
            if cd > 0 {
                back_scan(s, j, false, d, bd, (cd - 1) as nat)
            } else {
                None
            }
        } else if c == ';' && d == 0 && bd == 0 && cd == 0 {
            None
        } else {
            back_scan(s, j, false, d, bd, cd)
        }
    }
}

/// Number of commas in `s[lo..hi]` outside nested brackets, with nesting
/// depths that never drop below zero.
pub open spec fn count_commas(s: Seq<char>, lo: int, hi: int, p: nat, b: nat, c: nat) -> nat
    decreases hi - lo,
{
    if lo >= hi || lo < 0 || hi > s.len() {
        0
    } else {
        let ch = s[lo];
        if ch == '(' {
            count_commas(s, lo + 1, hi, p + 1, b, c)
        } else if ch == ')' {
            count_commas(s, lo + 1, hi, if p > 0 { (p - 1) as nat } else { p }, b, c)
        } else if ch == '[' {
            count_commas(s, lo + 1, hi, p, b + 1, c)
        } else if ch == ']' {
            count_commas(s, lo + 1, hi, p, if b > 0 { (b - 1) as nat } else { b }, c)
        } else if ch == '{' {
            count_commas(s, lo + 1, hi, p, b, c + 1)
        } else if ch == '}' {
            count_commas(s, lo + 1, hi, p, b, if c > 0 { (c - 1) as nat } else { c })
        } else if ch == ',' && p == 0 && b == 0 && c == 0 {
            1 + count_commas(s, lo + 1, hi, p, b, c)
        } else {
            count_commas(s, lo + 1, hi, p, b, c)
        }
    }
}

pub open spec fn ident_pred() -> spec_fn(char) -> bool {
    |c: char| is_ident_char(c)
}

/// The identifier written just before index `open` (trailing whitespace skipped).
pub open spec fn ident_before(s: Seq<char>, open: int) -> Seq<char> {
    let t = trim_end(s.take(open));
    trim(t.skip(t.len() - trail(t, ident_pred())))
}

/// The call enclosing the cursor at line `l`, column `c`: the called name and
/// the index of the active argument, or `None` when there is no such call or
/// the name is empty or a control keyword.
pub open spec fn enclosing_call(s: Seq<char>, l: nat, c: nat) -> Option<(Seq<char>, nat)> {
    let off = cursor_offset(s, l, c);
    match back_scan(s, off, false, 0, 0, 0) {
        None => None,
        Some(o) => if off <= o {
            None
        } else {
            let name = ident_before(s, o);
            if name.len() == 0 || in_list(name, CONTROL_KEYWORDS) {
                None
            } else {
                Some((name, count_commas(s, o + 1, off, 0, 0, 0)))
            }
        },
    }
}

proof fn lemma_line_search_bound(s: Seq<char>, idx: int, cur: nat, l: nat)
    requires
        0 <= idx,
    ensures
        line_search(s, idx, cur, l).0 matches Some(k) ==> idx <= k < s.len(),
    decreases s.len() - idx,
{
    if idx < s.len() && cur != l {
        lemma_line_search_bound(s, idx + 1, if s[idx] == '\n' { cur + 1 } else { cur }, l);
    }
}

/// Index of the end of the line starting at `ls` with trailing carriage
/// returns removed.
fn line_end(s: &Vec<char>, ls: usize) -> (r: usize)
    requires
        ls <= s.len(),
    ensures
        ls <= r <= s.len(),
        r - ls == line_len_at(s@, ls as int),
{
    let mut e = ls;
    while e < s.len() && s[e] != '\n'
        invariant
            ls <= e <= s.len(),
            forall|j: int| ls <= j < e ==> s@[j] != '\n',
        decreases s.len() - e,
    {
        e = e + 1;
    }
    proof {
        let rest = s@.skip(ls as int);
        crate::text::lemma_find_from_facts(rest, seq!['\n'], 0);
        if e < s.len() {
            assert(crate::text::match_at(rest, seq!['\n'], e - ls)) by {
                assert(rest.subrange(e - ls, e - ls + 1) =~= seq!['\n']);
            }
            assert forall|j: int| 0 <= j < e - ls implies !#[trigger] crate::text::match_at(rest, seq!['\n'], j) by {
                if crate::text::match_at(rest, seq!['\n'], j) {
                    assert(rest.subrange(j, j + 1)[0] == rest[j]);
                    assert(rest[j] == s@[ls + j]);
                }
            }
            crate::text::lemma_find_from_skip(rest, seq!['\n'], 0, e - ls);
        } else {
            assert forall|j: int| 0 <= j implies !#[trigger] crate::text::match_at(rest, seq!['\n'], j) by {
                if crate::text::match_at(rest, seq!['\n'], j) {
                    assert(rest.subrange(j, j + 1)[0] == rest[j]);
                    assert(rest[j] == s@[ls + j]);
                }
            }
            if crate::text::find(rest, seq!['\n']) is Some {
                let k = crate::text::find(rest, seq!['\n'])->0;
                assert(crate::text::match_at(rest, seq!['\n'], k));
            }
            assert(rest =~= s@.subrange(ls as int, e as int));
        }
    }
    let ghost raw = s@.subrange(ls as int, e as int);
    assert(raw =~= s@.skip(ls as int).take(e - ls) || e == s.len());
    let mut k: usize = 0;
    while k < e - ls && s[e - 1 - k] == '\r'
        invariant
            ls <= e <= s.len(),
            k <= e - ls,
            raw == s@.subrange(ls as int, e as int),
            forall|j: int| raw.len() - k <= j < raw.len() ==> #[trigger] cr_pred()(raw[j]),
        decreases e - ls - k,
    {
        assert(raw[raw.len() - 1 - k] == s@[e - 1 - k]);
        k = k + 1;
    }
    proof {
        if k < e - ls {
            assert(raw[raw.len() - 1 - k] == s@[e - 1 - k]);
        }
        lemma_trail(raw, cr_pred(), k as int);
        if e < s.len() {
            assert(s@.skip(ls as int).take(e - ls) =~= raw);
        } else {
            assert(s@.skip(ls as int) =~= raw);
        }
    }
    e - k
}

/// Index of the cursor at (`l`, `c`) in `s`.
fn offset_of(s: &Vec<char>, l: usize, c: usize) -> (r: usize)
    ensures
        r == cursor_offset(s@, l as nat, c as nat),
        r <= s.len(),
{
    let mut cur: usize = 0;
    let mut idx: usize = 0;
    let mut found = false;
    while idx < s.len()
        invariant_except_break
            !found,
        invariant
            idx <= s.len(),
            cur <= idx,
            line_search(s@, 0, 0, l as nat) == line_search(s@, idx as int, cur as nat, l as nat),
        ensures
            found ==> idx < s.len() && cur == l,
            !found ==> idx == s.len(),
        decreases s.len() - idx,
    {
        if cur == l {
            found = true;
            break;
        }
        if s[idx] == '\n' {
            cur = cur + 1;
        }
        idx = idx + 1;
    }
    assert(found ==> idx < s.len() && cur == l);
    assert(!found ==> idx == s.len());
    if found {
        assert(line_search(s@, idx as int, cur as nat, l as nat) == (Some(idx as int), cur as nat));
        let e = line_end(s, idx);
        let line = slice_of(s, idx, e);
        idx + crate::text::char_floor_of(&line, c)
    } else if cur == l {
        assert(line_search(s@, idx as int, cur as nat, l as nat) == (None::<int>, cur as nat));
        let e = line_end(s, 0);
        let line = slice_of(s, 0, e);
        crate::text::char_floor_of(&line, c)
    } else {
        assert(line_search(s@, idx as int, cur as nat, l as nat) == (None::<int>, cur as nat));
        s.len()
    }
}

/// Index of the `(` found by [`back_scan`] from `idx`.
fn back_scan_exec(s: &Vec<char>, idx: usize) -> (r: Option<usize>)
    requires
        idx <= s.len(),
    ensures
        r matches Some(o) ==> back_scan(s@, idx as int, false, 0, 0, 0) == Some(o as int),
        r is None ==> back_scan(s@, idx as int, false, 0, 0, 0) is None,
{
    let mut i = idx;
    let mut in_str = false;
    let mut d: usize = 0;
    let mut bd: usize = 0;
    let mut cd: usize = 0;
    while i > 0
        invariant
            i <= idx <= s.len(),
            d <= idx - i,
            bd <= idx - i,
            cd <= idx - i,
            back_scan(s@, idx as int, false, 0, 0, 0) == back_scan(
                s@,
                i as int,
                in_str,
                d as nat,
                bd as nat,
                cd as nat,
            ),
        decreases i,
    {
        let j = i - 1;
        let c = s[j];
        if in_str {
            if c == '"' && (j == 0 || s[j - 1] != '\\') {
                in_str = false;
            }
        } else if c == '"' {
            in_str = true;
        } else if c == ')' {
            d = d + 1;
        } else if c == ']' {
            bd = bd + 1;
        } else if c == '}' {
            cd = cd + 1;
        } else if c == '(' {
            if d > 0 {
                d = d - 1;
            } else if bd == 0 && cd == 0 {
                return Some(j);
            }
        } else if c == '[' {
            if bd > 0 {
                bd = bd - 1;
            }
        } else if c == '{' {
            if cd > 0 {
                cd = cd - 1;
            } else {
                return None;
            }
        } else if c == ';' && d == 0 && bd == 0 && cd == 0 {
            return None;
        }
        i = j;
    }
    None
}

/// The number of top-level commas between `lo` and `hi`.
fn count_commas_exec(s: &Vec<char>, lo: usize, hi: usize) -> (r: usize)
    requires
        lo <= hi <= s.len(),
    ensures
        r == count_commas(s@, lo as int, hi as int, 0, 0, 0),
{
    let mut i = lo;
    let mut p: usize = 0;
    let mut b: usize = 0;
    let mut c: usize = 0;
    let mut n: usize = 0;
    while i < hi
        invariant
            lo <= i <= hi <= s.len(),
            p <= i - lo,
            b <= i - lo,
            c <= i - lo,
            n <= i - lo,
            count_commas(s@, lo as int, hi as int, 0, 0, 0) == n + count_commas(
                s@,
                i as int,
                hi as int,
                p as nat,
                b as nat,
                c as nat,
            ),
        decreases hi - i,
    {
        let ch = s[i];
        if ch == '(' {
            p = p + 1;
        } else if ch == ')' {
            if p > 0 {
                p = p - 1;
            }
        } else if ch == '[' {
            b = b + 1;
        } else if ch == ']' {
            if b > 0 {
                b = b - 1;
            }
        } else if ch == '{' {
            c = c + 1;
        } else if ch == '}' {
            if c > 0 {
                c = c - 1;
            }
        } else if ch == ',' && p == 0 && b == 0 && c == 0 {
            n = n + 1;
        }
        i = i + 1;
    }
    n
}

/// Identifies the function call around the cursor (`line_idx`, `col_idx`)
/// and the index of the argument the cursor is in.
pub fn find_enclosing_call(text: &str, line_idx: usize, col_idx: usize) -> (r: Option<(String, usize)>)
    ensures
        match enclosing_call(text@, line_idx as nat, col_idx as nat) {
            None => r is None,
            Some((name, k)) => r matches Some((n, a)) && n@ == name && a == k,
        },
{
    let s = chars_of(text);
    let off = offset_of(&s, line_idx, col_idx);
    let open = match back_scan_exec(&s, off) {
        None => return None,
        Some(o) => o,
    };
    if off <= open {
        return None;
    }
    let before = slice_of(&s, 0, open);
    let t = trim_end_of(&before);
    let mut k: usize = 0;
    while k < t.len() && (crate::text::char_is_alphanumeric(t[t.len() - 1 - k]) || t[t.len() - 1 - k] == '_')
        invariant
            k <= t.len(),
            forall|j: int| t.len() - k <= j < t.len() ==> #[trigger] ident_pred()(t@[j]),
        decreases t.len() - k,
    {
        k = k + 1;
    }
    proof {
        lemma_trail(t@, ident_pred(), k as int);
    }
    let tail = slice_of(&t, t.len() - k, t.len());
    let name = trim_of(&tail);
    if name.len() == 0 || word_in_list(&name, &CONTROL_KEYWORDS) {
        return None;
    }
    let active = count_commas_exec(&s, open + 1, off);
    Some((string_of(&name), active))
}

} // verus!
