//! Properties of the built-in formatter's output, up to its idempotence.
use vstd::prelude::*;
use crate::format::{brace_counts, clean_from, cleaned_line, format_scan, format_step, formatted, indent_unit, line_indent, repeat, sat_add, sat_sub, FormatState};
use crate::text::{ends_with, is_ws, join, lines_of, starts_with, strip_cr, trim};

verus! {

pub open spec fn chars_from(o: Seq<char>, s: Seq<char>) -> bool {
    forall|k: int| 0 <= k < o.len() ==> #[trigger] o[k] == ' ' || s.contains(o[k])
}

proof fn lemma_chars_concat(a: Seq<char>, b: Seq<char>, s: Seq<char>)
    requires
        chars_from(a, s),
        chars_from(b, s),
    ensures
        chars_from(a + b, s),
{
    assert forall|k: int| 0 <= k < (a + b).len() implies #[trigger] (a + b)[k] == ' ' || s.contains((a + b)[k]) by {
        if k < a.len() {
            assert((a + b)[k] == a[k]);
        } else {
            assert((a + b)[k] == b[k - a.len()]);
        }
    }
}

/// Every character the cleaner puts out from index `i` is a space or a
/// character of the line.
proof fn lemma_clean_chars(s: Seq<char>, i: int, st: bool, p: Option<char>)
    requires
        0 <= i,
    ensures
        chars_from(clean_from(s, i, st, p), s),
    decreases s.len() - i,
{
    if i < s.len() {
        let c = s[i];
        assert(s.contains(c));
        let o = clean_from(s, i, st, p);
        assert(chars_from(seq![c], s));
        assert(chars_from(seq![' ', c], s));
        assert(chars_from(seq![c, ' '], s));
        if c == '"' {
            lemma_clean_chars(s, i + 1, !st, Some(c));
            lemma_chars_concat(seq![c], clean_from(s, i + 1, !st, Some(c)), s);
        } else if st {
            lemma_clean_chars(s, i + 1, st, Some(c));
            lemma_chars_concat(seq![c], clean_from(s, i + 1, st, Some(c)), s);
        } else if c == '/' && i + 1 < s.len() && s[i + 1] == '/' {
            assert forall|k: int| 0 <= k < o.len() implies #[trigger] o[k] == ' ' || s.contains(o[k]) by {
                assert(o[k] == s[i + k]);
            }
        } else if c == ' ' && p == Some(' ') {
            lemma_clean_chars(s, i + 1, st, p);
        } else if c == ',' {
            lemma_clean_chars(s, i + 1, st, Some(' '));
            lemma_clean_chars(s, i + 1, st, Some(','));
            lemma_chars_concat(seq![c, ' '], clean_from(s, i + 1, st, Some(' ')), s);
            lemma_chars_concat(seq![c], clean_from(s, i + 1, st, Some(',')), s);
        } else if c == ')' {
            lemma_clean_chars(s, i + 1, st, Some(' '));
            lemma_clean_chars(s, i + 1, st, Some(')'));
            lemma_chars_concat(seq![c, ' '], clean_from(s, i + 1, st, Some(' ')), s);
            lemma_chars_concat(seq![c], clean_from(s, i + 1, st, Some(')')), s);
        } else if c == '{' && p is Some && !is_ws(p.unwrap()) {
            lemma_clean_chars(s, i + 1, st, Some('{'));
            lemma_chars_concat(seq![' ', c], clean_from(s, i + 1, st, Some('{')), s);
        } else {
            lemma_clean_chars(s, i + 1, st, Some(c));
            lemma_chars_concat(seq![c], clean_from(s, i + 1, st, Some(c)), s);
        }
    }
}

proof fn lemma_last_concat(a: Seq<char>, b: Seq<char>)
    requires
        b.len() > 0,
    ensures
        (a + b).len() > 0,
        (a + b).last() == b.last(),
{
}

/// From any index of a line that does not end in a space, the cleaner puts
/// out something that ends with the line's last character.
proof fn lemma_clean_last(s: Seq<char>, i: int, st: bool, p: Option<char>)
    requires
        0 <= i < s.len(),
        s.last() != ' ',
    ensures
        clean_from(s, i, st, p).len() > 0,
        clean_from(s, i, st, p).last() == s.last(),
    decreases s.len() - i,
{
    let c = s[i];
    if i + 1 < s.len() {
        if c == '"' {
            lemma_clean_last(s, i + 1, !st, Some(c));
            lemma_last_concat(seq![c], clean_from(s, i + 1, !st, Some(c)));
            assert(clean_from(s, i, st, p) == seq![c] + clean_from(s, i + 1, !st, Some(c)));
        } else if st {
            lemma_clean_last(s, i + 1, st, Some(c));
            lemma_last_concat(seq![c], clean_from(s, i + 1, st, Some(c)));
            assert(clean_from(s, i, st, p) == seq![c] + clean_from(s, i + 1, st, Some(c)));
        } else if c == '/' && s[i + 1] == '/' {
            assert(s.skip(i).last() == s.last());
        } else if c == ' ' && p == Some(' ') {
            lemma_clean_last(s, i + 1, st, p);
        } else if c == ',' {
            lemma_clean_last(s, i + 1, st, Some(' '));
            lemma_clean_last(s, i + 1, st, Some(','));
            lemma_last_concat(seq![c, ' '], clean_from(s, i + 1, st, Some(' ')));
            lemma_last_concat(seq![c], clean_from(s, i + 1, st, Some(',')));
        } else if c == ')' {
            lemma_clean_last(s, i + 1, st, Some(' '));
            lemma_clean_last(s, i + 1, st, Some(')'));
            lemma_last_concat(seq![c, ' '], clean_from(s, i + 1, st, Some(' ')));
            lemma_last_concat(seq![c], clean_from(s, i + 1, st, Some(')')));
        } else if c == '{' && p is Some && !is_ws(p.unwrap()) {
            lemma_clean_last(s, i + 1, st, Some('{'));
            lemma_last_concat(seq![' ', c], clean_from(s, i + 1, st, Some('{')));
        } else {
            lemma_clean_last(s, i + 1, st, Some(c));
            lemma_last_concat(seq![c], clean_from(s, i + 1, st, Some(c)));
        }
    } else {
        assert(c == s.last());

        assert(clean_from(s, i + 1, st, Some(c)) =~= Seq::<char>::empty());
        assert(clean_from(s, i + 1, !st, Some(c)) =~= Seq::<char>::empty());
        assert(clean_from(s, i + 1, st, Some(')')) =~= Seq::<char>::empty());
        assert(clean_from(s, i + 1, st, Some(',')) =~= Seq::<char>::empty());
        assert(clean_from(s, i + 1, st, Some('"')) =~= Seq::<char>::empty());
    }
}

/// A cleaned non-empty line that does not end in a space ends as the line
/// does, and holds only spaces and characters of the line.
pub proof fn lemma_cleaned_line_chars(t: Seq<char>)
    requires
        t.len() > 0,
        t.last() != ' ',
    ensures
        cleaned_line(t).len() > 0,
        cleaned_line(t).last() == t.last(),
        chars_from(cleaned_line(t), t),
{
    reveal_strlit("if(");
    reveal_strlit("for(");
    reveal_strlit("while(");
    reveal_strlit("if (");
    reveal_strlit("for (");
    reveal_strlit("while (");
    let r = clean_from(t, 0, false, None);
    lemma_clean_chars(t, 0, false, None);
    lemma_clean_last(t, 0, false, None);
    let c = cleaned_line(t);
    assert(chars_from(r, t));
    if starts_with(r, "if("@) {
        assert(r[0] == r.take(3)[0] && r[1] == r.take(3)[1] && r[2] == r.take(3)[2]);
        assert(c =~= seq![r[0], r[1], ' ', r[2]] + r.skip(3));
        assert(chars_from(seq![r[0], r[1], ' ', r[2]], t)) by {
            assert(r.contains(r[0]) || true);
        }
        assert(chars_from(r.skip(3), t)) by {
            assert forall|k: int| 0 <= k < r.skip(3).len() implies #[trigger] r.skip(3)[k] == ' ' || t.contains(r.skip(3)[k]) by {
                assert(r.skip(3)[k] == r[k + 3]);
            }
        }
        lemma_chars_concat(seq![r[0], r[1], ' ', r[2]], r.skip(3), t);
    } else if starts_with(r, "for("@) {
        assert(r[0] == r.take(4)[0] && r[1] == r.take(4)[1] && r[2] == r.take(4)[2] && r[3] == r.take(4)[3]);
        assert(c =~= seq![r[0], r[1], r[2], ' ', r[3]] + r.skip(4));
        assert(chars_from(r.skip(4), t)) by {
            assert forall|k: int| 0 <= k < r.skip(4).len() implies #[trigger] r.skip(4)[k] == ' ' || t.contains(r.skip(4)[k]) by {
                assert(r.skip(4)[k] == r[k + 4]);
            }
        }
        lemma_chars_concat(seq![r[0], r[1], r[2], ' ', r[3]], r.skip(4), t);
    } else if starts_with(r, "while("@) {
        assert(r[0] == r.take(6)[0] && r[1] == r.take(6)[1] && r[2] == r.take(6)[2] && r[3] == r.take(6)[3]
            && r[4] == r.take(6)[4] && r[5] == r.take(6)[5]);
        assert(c =~= seq![r[0], r[1], r[2], r[3], r[4], ' ', r[5]] + r.skip(6));
        assert(chars_from(r.skip(6), t)) by {
            assert forall|k: int| 0 <= k < r.skip(6).len() implies #[trigger] r.skip(6)[k] == ' ' || t.contains(r.skip(6)[k]) by {
                assert(r.skip(6)[k] == r[k + 6]);
            }
        }
        lemma_chars_concat(seq![r[0], r[1], r[2], r[3], r[4], ' ', r[5]], r.skip(6), t);
    }
}

/// The characters of a trimmed text are characters of the text.
pub proof fn lemma_trim_chars(s: Seq<char>)
    ensures
        forall|k: int| 0 <= k < trim(s).len() ==> s.contains(#[trigger] trim(s)[k]),
        trim(s).len() <= s.len(),
{
    let ws = crate::text::ws_pred();
    crate::text::lemma_lead_facts(s, ws);
    let ts = crate::text::trim_start(s);
    crate::text::lemma_trail_facts(ts, ws);
    let a = crate::text::lead(s, ws) as int;
    assert forall|k: int| 0 <= k < trim(s).len() implies s.contains(#[trigger] trim(s)[k]) by {
        assert(trim(s)[k] == ts[k]);
        assert(ts[k] == s[a + k]);
    }
}

/// No line of a text holds a line break.
pub proof fn lemma_lines_no_newline(s: Seq<char>)
    ensures
        forall|i: int| 0 <= i < lines_of(s).len() ==> !(#[trigger] lines_of(s)[i]).contains('\n'),
    decreases s.len(),
{
    let nl = seq!['\n'];
    if s.len() > 0 {
        crate::text::lemma_find_from_facts(s, nl, 0);
        match crate::text::find(s, nl) {
            Some(i) => {
                let rest = s.skip(i + 1);
                lemma_lines_no_newline(rest);
                let first = strip_cr(s.take(i));
                assert(!first.contains('\n')) by {
                    if first.contains('\n') {
                        let k = choose|k: int| 0 <= k < first.len() && first[k] == '\n';
                        assert(first[k] == s[k]);
                        assert(crate::text::match_at(s, nl, k)) by {
                            assert(s.subrange(k, k + 1) =~= nl);
                        }
                    }
                }
                let ls = lines_of(s);
                assert(ls =~= seq![first] + lines_of(rest));
                assert forall|j: int| 0 <= j < ls.len() implies !(#[trigger] ls[j]).contains('\n') by {
                    if j > 0 {
                        assert(ls[j] == lines_of(rest)[j - 1]);
                    }
                }
            },
            None => {
                assert(!s.contains('\n')) by {
                    if s.contains('\n') {
                        let k = choose|k: int| 0 <= k < s.len() && s[k] == '\n';
                        assert(crate::text::match_at(s, nl, k)) by {
                            assert(s.subrange(k, k + 1) =~= nl);
                        }
                    }
                }
                assert(lines_of(s) =~= seq![s]);
            },
        }
    }
}

proof fn lemma_repeat_avoids(unit: Seq<char>, k: nat, x: char)
    requires
        !unit.contains(x),
    ensures
        !repeat(unit, k).contains(x),
    decreases k,
{
    if k > 0 {
        lemma_repeat_avoids(unit, (k - 1) as nat, x);
        let r = repeat(unit, (k - 1) as nat);
        if (r + unit).contains(x) {
            let j = choose|j: int| 0 <= j < (r + unit).len() && (r + unit)[j] == x;
            if j < r.len() {
                assert(r[j] == x);
                assert(r.contains(x));
            } else {
                assert(unit[j - r.len()] == x);
                assert(unit.contains(x));
            }
        }
    }
}

/// A line put out by the formatter that carries code (not blank, not a directive).
pub open spec fn code_line(l: Seq<char>) -> bool {
    trim(l).len() > 0 && !starts_with(trim(l), "#"@)
}

/// The indentation level after the first `k` lines put out.
pub open spec fn indent_after(ls: Seq<Seq<char>>, k: nat) -> nat
    decreases k,
{
    if k == 0 || k > ls.len() {
        0
    } else {
        let prev = indent_after(ls, (k - 1) as nat);
        let c = trim(ls[k - 1]);
        if code_line(ls[k - 1]) {
            let b = brace_counts(c, 0, false, 0, 0);
            sat_add(sat_sub(prev, b.1), b.0)
        } else {
            prev
        }
    }
}

/// Line `k` put out is blank, a trimmed directive, or a cleaned line of
/// code indented for its level; it holds no line break and does not end in
/// white space.
pub open spec fn line_ok(ls: Seq<Seq<char>>, k: int, unit: Seq<char>) -> bool {
    let l = ls[k];
    let c = trim(l);
    &&& !l.contains('\n')
    &&& (l.len() > 0 ==> !is_ws(l.last()))
    &&& (l.len() == 0 || (starts_with(c, "#"@) && l == c) || (code_line(l) && cleaned_line(c) == c && l == repeat(
        unit,
        line_indent(c, indent_after(ls, k as nat)),
    ) + c))
}

pub open spec fn out_ok(ls: Seq<Seq<char>>, unit: Seq<char>) -> bool {
    forall|k: int| 0 <= k < ls.len() ==> #[trigger] line_ok(ls, k, unit)
}

/// The indentation unit holds neither line breaks nor anything but white space.
pub open spec fn unit_ok(unit: Seq<char>) -> bool {
    &&& !unit.contains('\n')
    &&& forall|j: int| 0 <= j < unit.len() ==> is_ws(#[trigger] unit[j])
}

proof fn lemma_indent_prefix(ls: Seq<Seq<char>>, n: int, k: nat)
    requires
        k <= n <= ls.len(),
    ensures
        indent_after(ls.take(n), k) == indent_after(ls, k),
    decreases k,
{
    if k > 0 {
        lemma_indent_prefix(ls, n, (k - 1) as nat);
        assert(ls.take(n)[k - 1] == ls[k - 1]);
    }
}

proof fn lemma_out_prefix(ls: Seq<Seq<char>>, n: int, unit: Seq<char>)
    requires
        out_ok(ls, unit),
        0 <= n <= ls.len(),
    ensures
        out_ok(ls.take(n), unit),
{
    assert forall|k: int| 0 <= k < ls.take(n).len() implies #[trigger] line_ok(ls.take(n), k, unit) by {
        assert(line_ok(ls, k, unit));
        assert(ls.take(n)[k] == ls[k]);
        lemma_indent_prefix(ls, n, k as nat);
    }
}

proof fn lemma_out_push(ls: Seq<Seq<char>>, l: Seq<char>, unit: Seq<char>)
    requires
        out_ok(ls, unit),
        line_ok(ls.push(l), ls.len() as int, unit),
    ensures
        out_ok(ls.push(l), unit),
{
    let m = ls.push(l);
    assert(m.take(ls.len() as int) =~= ls);
    assert forall|k: int| 0 <= k < m.len() implies #[trigger] line_ok(m, k, unit) by {
        if k < ls.len() {
            assert(line_ok(ls, k, unit));
            assert(m[k] == ls[k]);
            lemma_indent_prefix(m, ls.len() as int, k as nat);
        }
    }
}

pub proof fn lemma_trim_empty()
    ensures
        trim(Seq::<char>::empty()) == Seq::<char>::empty(),
{
    let e = Seq::<char>::empty();
    assert(crate::text::trim_start(e) =~= e);
    assert(crate::text::trim_end(e) =~= e);
}

/// What the formatter keeps while it reads the lines of a text.
pub open spec fn pass_ok(st: FormatState, unit: Seq<char>) -> bool {
    &&& out_ok(st.lines, unit)
    &&& st.indent == indent_after(st.lines, st.lines.len())
}

#[verifier::rlimit(60)]
proof fn lemma_pass_step(st: FormatState, line: Seq<char>, unit: Seq<char>)
    requires
        pass_ok(st, unit),
        unit_ok(unit),
        !line.contains('\n'),
    ensures
        pass_ok(format_step(st, line, unit), unit),
{
    reveal_strlit("#");
    let t = trim(line);
    let m = st.lines.len();
    let st2 = format_step(st, line, unit);
    lemma_trim_chars(line);
    lemma_trim_empty();
    assert(!t.contains('\n')) by {
        if t.contains('\n') {
            let k = choose|k: int| 0 <= k < t.len() && t[k] == '\n';
            assert(line.contains(t[k]));
        }
    }
    if t.len() == 0 {
        if !st.blank && st.lines.len() > 0 {
            let l = Seq::<char>::empty();
            assert(line_ok(st.lines.push(l), m as int, unit));
            lemma_out_push(st.lines, l, unit);
            assert(!code_line(l));
            let ls2 = st.lines.push(l);
            assert(ls2.take(m as int) =~= st.lines);
            lemma_indent_prefix(ls2, m as int, m as nat);
            assert(ls2[m as int] == l);
            assert(indent_after(ls2, (m + 1) as nat) == indent_after(ls2, m as nat));
        }
    } else if starts_with(t, "#"@) {
        crate::laws::lemma_trimmed(line);
        assert(line_ok(st.lines.push(t), m as int, unit));
        lemma_out_push(st.lines, t, unit);
        assert(!code_line(t)) by {
            assert(trim(t) == t);
        }
        let ls2 = st.lines.push(t);
        assert(ls2.take(m as int) =~= st.lines);
        lemma_indent_prefix(ls2, m as int, m as nat);
        assert(ls2[m as int] == t);
        assert(indent_after(ls2, (m + 1) as nat) == indent_after(ls2, m as nat));
    } else {
        crate::laws::lemma_trimmed(line);
        let c = cleaned_line(t);
        crate::laws::lemma_cleaned_first(t);
        lemma_cleaned_line_chars(t);
        crate::laws::law_clean_line_idempotent(t);
        let k = line_indent(c, st.indent);
        let w = repeat(unit, k);
        let l = w + c;
        crate::laws::lemma_repeat_ws(unit, k);
        lemma_repeat_avoids(unit, k, '\n');
        assert(!is_ws(c[0]));
        assert(!is_ws(c.last()));
        crate::laws::lemma_trim_start_after_ws(w, c);
        crate::text::lemma_trail(c, crate::text::ws_pred(), 0);
        assert(crate::text::trim_end(c) =~= c);
        assert(trim(l) == c);
        assert(t[0] != '#') by {
            if t[0] == '#' {
                assert(t.take(1) =~= "#"@);
            }
        }
        assert(!starts_with(c, "#"@)) by {
            if starts_with(c, "#"@) {
                assert(c.take(1)[0] == c[0]);
            }
        }
        assert(!c.contains('\n')) by {
            if c.contains('\n') {
                let j = choose|j: int| 0 <= j < c.len() && c[j] == '\n';
                assert(c[j] == ' ' || t.contains(c[j]));
            }
        }
        assert(!l.contains('\n')) by {
            if l.contains('\n') {
                let j = choose|j: int| 0 <= j < l.len() && l[j] == '\n';
                if j < w.len() {
                    assert(l[j] == w[j]);
                    assert(w.contains('\n'));
                } else {
                    assert(l[j] == c[j - w.len()]);
                    assert(c.contains('\n'));
                }
            }
        }
        assert(l.last() == c.last());
        let ls2 = st.lines.push(l);
        assert(ls2[m as int] == l);
        lemma_indent_prefix(ls2, m as int, m as nat);
        assert(ls2.take(m as int) =~= st.lines);
        assert(code_line(l));
        assert(line_ok(ls2, m as int, unit));
        lemma_out_push(st.lines, l, unit);
        assert(st2.lines == ls2);
        let b = brace_counts(c, 0, false, 0, 0);
        assert(indent_after(ls2, (m + 1) as nat) == sat_add(sat_sub(indent_after(ls2, m as nat), b.1), b.0));
    }
}

pub proof fn lemma_pass(ls: Seq<Seq<char>>, n: nat, unit: Seq<char>)
    requires
        unit_ok(unit),
        n <= ls.len(),
        forall|i: int| 0 <= i < ls.len() ==> !(#[trigger] ls[i]).contains('\n'),
    ensures
        pass_ok(format_scan(ls, n, unit), unit),
    decreases n,
{
    if n > 0 {
        lemma_pass(ls, (n - 1) as nat, unit);
        lemma_pass_step(format_scan(ls, (n - 1) as nat, unit), ls[n - 1], unit);
    }
}

/// No line holds a line break or ends with a carriage return.
pub open spec fn clean_lines(ls: Seq<Seq<char>>) -> bool {
    forall|k: int| 0 <= k < ls.len() ==> !(#[trigger] ls[k]).contains('\n') && (ls[k].len() == 0 || ls[k].last() != '\r')
}

proof fn lemma_join_left(ls: Seq<Seq<char>>, sep: Seq<char>)
    requires
        ls.len() >= 2,
    ensures
        join(ls, sep) == ls[0] + sep + join(ls.drop_first(), sep),
    decreases ls.len(),
{
    if ls.len() == 2 {
        assert(ls.drop_last().len() == 1);
        assert(join(ls.drop_last(), sep) == ls[0]);
        assert(ls.drop_first().len() == 1);
        assert(join(ls.drop_first(), sep) == ls[1]);
    } else {
        lemma_join_left(ls.drop_last(), sep);
        assert(ls.drop_last().drop_first() =~= ls.drop_first().drop_last());
        assert(ls.drop_first().last() == ls.last());
        assert(ls.drop_last()[0] == ls[0]);
        assert(join(ls, sep) == join(ls.drop_last(), sep) + sep + ls.last());
        assert(join(ls.drop_first(), sep) == join(ls.drop_first().drop_last(), sep) + sep + ls.drop_first().last());
        assert(join(ls, sep) =~= ls[0] + sep + join(ls.drop_first(), sep));
    }
}

proof fn lemma_lines_cons(l: Seq<char>, rest: Seq<char>)
    requires
        !l.contains('\n'),
        l.len() == 0 || l.last() != '\r',
    ensures
        lines_of(l + "\n"@ + rest) == seq![l] + lines_of(rest),
{
    reveal_strlit("\n");
    let nl = seq!['\n'];
    let u = l + "\n"@ + rest;
    crate::text::lemma_find_from_facts(u, nl, 0);
    assert(crate::text::match_at(u, nl, l.len() as int)) by {
        assert(u.subrange(l.len() as int, l.len() + 1int) =~= nl);
    }
    match crate::text::find(u, nl) {
        Some(i2) => {
            if i2 < l.len() {
                assert(u[i2] == l[i2]);
                assert(u.subrange(i2, i2 + 1) == nl);
                assert(u.subrange(i2, i2 + 1)[0] == u[i2]);
                assert(l[i2] == '\n');
                assert(l.contains('\n'));
            }
        },
        None => {},
    }
    assert(u.take(l.len() as int) =~= l);
    assert(strip_cr(l) == l);
    assert(u.skip(l.len() + 1int) =~= rest);
}

proof fn lemma_lines_join_nl(ls: Seq<Seq<char>>)
    requires
        ls.len() > 0,
        clean_lines(ls),
    ensures
        lines_of(join(ls, "\n"@) + "\n"@) == ls,
    decreases ls.len(),
{
    assert(!ls[0].contains('\n'));
    if ls.len() == 1 {
        lemma_lines_cons(ls[0], Seq::<char>::empty());
        assert(join(ls, "\n"@) + "\n"@ =~= ls[0] + "\n"@ + Seq::<char>::empty());
        assert(lines_of(Seq::<char>::empty()) =~= Seq::<Seq<char>>::empty());
        assert(seq![ls[0]] + Seq::<Seq<char>>::empty() =~= ls);
    } else {
        let rest = ls.drop_first();
        assert forall|k: int| 0 <= k < rest.len() implies !(#[trigger] rest[k]).contains('\n') && (rest[k].len() == 0 || rest[k].last() != '\r') by {
            assert(rest[k] == ls[k + 1]);
        }
        lemma_lines_join_nl(rest);
        lemma_join_left(ls, "\n"@);
        lemma_lines_cons(ls[0], join(rest, "\n"@) + "\n"@);
        assert(join(ls, "\n"@) + "\n"@ =~= ls[0] + "\n"@ + (join(rest, "\n"@) + "\n"@));
        assert(seq![ls[0]] + rest =~= ls);
    }
}

proof fn lemma_lines_join(ls: Seq<Seq<char>>)
    requires
        ls.len() > 0,
        clean_lines(ls),
        ls.last().len() > 0,
    ensures
        lines_of(join(ls, "\n"@)) == ls,
    decreases ls.len(),
{
    let nl = seq!['\n'];
    assert(!ls[0].contains('\n'));
    if ls.len() == 1 {
        let l = ls[0];
        crate::text::lemma_find_from_facts(l, nl, 0);
        match crate::text::find(l, nl) {
            Some(i) => {
                assert(l.subrange(i, i + 1) == nl);
                assert(l.subrange(i, i + 1)[0] == l[i]);
                assert(l[i] == '\n');
                assert(l.contains('\n'));
            },
            None => {},
        }
        assert(lines_of(l) =~= seq![l]);
        assert(seq![l] =~= ls);
    } else {
        let rest = ls.drop_first();
        assert forall|k: int| 0 <= k < rest.len() implies !(#[trigger] rest[k]).contains('\n') && (rest[k].len() == 0 || rest[k].last() != '\r') by {
            assert(rest[k] == ls[k + 1]);
        }
        assert(rest.last() == ls.last());
        lemma_lines_join(rest);
        lemma_join_left(ls, "\n"@);
        lemma_lines_cons(ls[0], join(rest, "\n"@));
        assert(seq![ls[0]] + rest =~= ls);
    }
}

proof fn lemma_join_last(ls: Seq<Seq<char>>)
    requires
        ls.len() > 0,
        ls.last().len() > 0,
    ensures
        join(ls, "\n"@).len() > 0,
        join(ls, "\n"@).last() == ls.last().last(),
{
    if ls.len() > 1 {
        assert(join(ls, "\n"@) == join(ls.drop_last(), "\n"@) + "\n"@ + ls.last());
    }
}

/// The first line is not blank, and no blank line follows another.
pub open spec fn collapsed(ls: Seq<Seq<char>>) -> bool {
    &&& (ls.len() > 0 ==> ls[0].len() > 0)
    &&& forall|i: int| 0 <= i < ls.len() - 1 ==> (#[trigger] ls[i]).len() > 0 || ls[i + 1].len() > 0
}

#[verifier::rlimit(60)]
proof fn lemma_reformat(ls: Seq<Seq<char>>, k: nat, unit: Seq<char>)
    requires
        out_ok(ls, unit),
        collapsed(ls),
        k <= ls.len(),
    ensures
        format_scan(ls, k, unit) == (FormatState {
            lines: ls.take(k as int),
            indent: indent_after(ls, k),
            blank: k > 0 && ls[k - 1].len() == 0,
        }),
    decreases k,
{
    reveal_strlit("#");
    lemma_trim_empty();
    if k == 0 {
        assert(ls.take(0) =~= Seq::<Seq<char>>::empty());
    } else {
        let j = (k - 1) as nat;
        lemma_reformat(ls, j, unit);
        let st = format_scan(ls, j, unit);
        let l = ls[j as int];
        assert(line_ok(ls, j as int, unit));
        assert(ls.take(k as int) =~= ls.take(j as int).push(l));
        let t = trim(l);
        assert(format_scan(ls, k, unit) == format_step(st, l, unit));
        if l.len() == 0 {
            assert(j > 0);
            assert(ls[j - 1].len() > 0 || ls[j as int].len() > 0);
            assert(!code_line(l));
            assert(indent_after(ls, k) == indent_after(ls, j));
            assert(t.len() == 0);
            assert(!st.blank && st.lines.len() > 0);
            assert(format_step(st, l, unit) == FormatState { lines: st.lines.push(Seq::<char>::empty()), indent: st.indent, blank: true });
            assert(l =~= Seq::<char>::empty());
        } else if starts_with(t, "#"@) && l == t {
            assert(!code_line(l));
            assert(indent_after(ls, k) == indent_after(ls, j));
            assert(t.len() > 0);
            assert(format_step(st, l, unit) == FormatState { lines: st.lines.push(t), indent: st.indent, blank: false });
        } else {
            assert(code_line(l));
            let b = brace_counts(t, 0, false, 0, 0);
            assert(indent_after(ls, k) == sat_add(sat_sub(indent_after(ls, j), b.1), b.0));
            assert(cleaned_line(t) == t);
            assert(l == repeat(unit, line_indent(t, indent_after(ls, j))) + t);
            assert(format_step(st, l, unit) == FormatState {
                lines: st.lines.push(repeat(unit, line_indent(t, st.indent)) + t),
                indent: sat_add(sat_sub(st.indent, b.1), b.0),
                blank: false,
            });
        }
    }
}

proof fn lemma_unit_ok(tab_size: nat, insert_spaces: bool)
    ensures
        unit_ok(indent_unit(tab_size, insert_spaces)),
{
    let u = indent_unit(tab_size, insert_spaces);
    assert forall|j: int| 0 <= j < u.len() implies is_ws(#[trigger] u[j]) && u[j] != '\n' by {}
    if u.contains('\n') {
        let j = choose|j: int| 0 <= j < u.len() && u[j] == '\n';
        assert(u[j] != '\n');
    }
}

proof fn lemma_ends_nl(x: Seq<char>)
    ensures
        ends_with(x + "\n"@, "\n"@),
{
    reveal_strlit("\n");
    let r = x + "\n"@;
    assert(r.skip(r.len() - 1) =~= "\n"@);
}

proof fn lemma_not_ends_nl(r: Seq<char>)
    requires
        r.len() > 0,
        r.last() != '\n',
    ensures
        !ends_with(r, "\n"@),
{
    reveal_strlit("\n");
    if ends_with(r, "\n"@) {
        assert(r.skip(r.len() - 1)[0] == r.last());
    }
}

/// Formatting a formatted text again changes nothing.
pub proof fn law_format_idempotent(text: Seq<char>, tab_size: nat, insert_spaces: bool)
    ensures
        formatted(formatted(text, tab_size, insert_spaces), tab_size, insert_spaces) == formatted(
            text,
            tab_size,
            insert_spaces,
        ),
{
    reveal_strlit("\n");
    let unit = indent_unit(tab_size, insert_spaces);
    lemma_unit_ok(tab_size, insert_spaces);
    let ls = lines_of(text);
    lemma_lines_no_newline(text);
    lemma_pass(ls, ls.len(), unit);
    crate::laws::law_format_blank_lines(ls, ls.len(), unit);
    let st = format_scan(ls, ls.len(), unit);
    let l0 = st.lines;
    assert(collapsed(l0));
    assert(clean_lines(l0)) by {
        assert forall|k: int| 0 <= k < l0.len() implies !(#[trigger] l0[k]).contains('\n') && (l0[k].len() == 0 || l0[k].last() != '\r') by {
            assert(line_ok(l0, k, unit));
        }
    }
    let r = formatted(text, tab_size, insert_spaces);
    let j = join(l0, "\n"@);
    let suf: Seq<char> = if ends_with(text, "\n"@) { "\n"@ } else { seq![] };
    assert(r == j + suf);
    if l0.len() == 0 {
        assert(j =~= Seq::<char>::empty());
        if ends_with(text, "\n"@) {
            assert(r =~= Seq::<char>::empty() + "\n"@ + Seq::<char>::empty());
            lemma_lines_cons(Seq::<char>::empty(), Seq::<char>::empty());
            assert(lines_of(Seq::<char>::empty()) =~= Seq::<Seq<char>>::empty());
            let l2 = lines_of(r);
            assert(l2 =~= seq![Seq::<char>::empty()]);
            lemma_trim_empty();
            assert(l2[0] =~= Seq::<char>::empty());
            assert(trim(l2[0]).len() == 0);
            let s0 = format_scan(l2, 0, unit);
            assert(s0.lines.len() == 0);
            assert(format_scan(l2, 1, unit) == format_step(s0, l2[0], unit));
            assert(format_scan(l2, 1, unit).lines =~= Seq::<Seq<char>>::empty());
            lemma_ends_nl(Seq::<char>::empty());
            assert(join(Seq::<Seq<char>>::empty(), "\n"@) =~= Seq::<char>::empty());
            assert(formatted(r, tab_size, insert_spaces) =~= r);
        } else {
            assert(r =~= Seq::<char>::empty());
            assert(lines_of(r) =~= Seq::<Seq<char>>::empty());
            assert(join(Seq::<Seq<char>>::empty(), "\n"@) =~= Seq::<char>::empty());
            assert(!ends_with(r, "\n"@));
            assert(formatted(r, tab_size, insert_spaces) =~= r);
        }
    } else if ends_with(text, "\n"@) {
        lemma_lines_join_nl(l0);
        lemma_reformat(l0, l0.len(), unit);
        assert(l0.take(l0.len() as int) =~= l0);
        lemma_ends_nl(j);
    } else if l0.last().len() > 0 {
        assert(r =~= j);
        lemma_lines_join(l0);
        lemma_reformat(l0, l0.len(), unit);
        assert(l0.take(l0.len() as int) =~= l0);
        lemma_join_last(l0);
        assert(line_ok(l0, l0.len() - 1, unit));
        lemma_not_ends_nl(r);
    } else {
        let l1 = l0.drop_last();
        assert(l0.len() >= 2);
        assert(l0[l0.len() - 2].len() > 0 || l0[l0.len() - 1].len() > 0);
        assert(l1.last().len() > 0);
        assert(l0.last() =~= Seq::<char>::empty());
        assert(j == join(l1, "\n"@) + "\n"@ + l0.last());
        assert(r =~= join(l1, "\n"@) + "\n"@);
        assert(clean_lines(l1)) by {
            assert forall|k: int| 0 <= k < l1.len() implies !(#[trigger] l1[k]).contains('\n') && (l1[k].len() == 0 || l1[k].last() != '\r') by {
                assert(l1[k] == l0[k]);
            }
        }
        lemma_lines_join_nl(l1);
        assert(l0.take(l1.len() as int) =~= l1);
        lemma_out_prefix(l0, l1.len() as int, unit);
        assert(collapsed(l1)) by {
            assert(l1[0] == l0[0]);
            assert forall|i: int| 0 <= i < l1.len() - 1 implies (#[trigger] l1[i]).len() > 0 || l1[i + 1].len() > 0 by {
                assert(l1[i] == l0[i]);
                assert(l1[i + 1] == l0[i + 1]);
            }
        }
        lemma_reformat(l1, l1.len(), unit);
        assert(l1.take(l1.len() as int) =~= l1);
        lemma_ends_nl(join(l1, "\n"@));
    }
}

/// The lines of the formatted text are the lines the formatter put out,
/// less a final blank one (which the final line break stands for), or a
/// single blank line when nothing was put out but the text ended a line.
proof fn lemma_output_lines(text: Seq<char>, tab_size: nat, insert_spaces: bool)
    ensures
        ({
            let unit = indent_unit(tab_size, insert_spaces);
            let l0 = format_scan(lines_of(text), lines_of(text).len(), unit).lines;
            let out = lines_of(formatted(text, tab_size, insert_spaces));
            ||| out == l0
            ||| (l0.len() > 0 && l0.last().len() == 0 && out == l0.drop_last())
            ||| (l0.len() == 0 && out == seq![Seq::<char>::empty()])
        }),
{
    reveal_strlit("\n");
    let unit = indent_unit(tab_size, insert_spaces);
    lemma_unit_ok(tab_size, insert_spaces);
    let ls = lines_of(text);
    lemma_lines_no_newline(text);
    lemma_pass(ls, ls.len(), unit);
    crate::laws::law_format_blank_lines(ls, ls.len(), unit);
    let l0 = format_scan(ls, ls.len(), unit).lines;
    assert(clean_lines(l0)) by {
        assert forall|k: int| 0 <= k < l0.len() implies !(#[trigger] l0[k]).contains('\n') && (l0[k].len() == 0 || l0[k].last() != '\r') by {
            assert(line_ok(l0, k, unit));
        }
    }
    let r = formatted(text, tab_size, insert_spaces);
    let j = join(l0, "\n"@);
    if l0.len() == 0 {
        assert(j =~= Seq::<char>::empty());
        if ends_with(text, "\n"@) {
            assert(r =~= Seq::<char>::empty() + "\n"@ + Seq::<char>::empty());
            lemma_lines_cons(Seq::<char>::empty(), Seq::<char>::empty());
            assert(lines_of(Seq::<char>::empty()) =~= Seq::<Seq<char>>::empty());
            assert(lines_of(r) =~= seq![Seq::<char>::empty()]);
        } else {
            assert(r =~= Seq::<char>::empty());
            assert(lines_of(r) =~= Seq::<Seq<char>>::empty());
        }
    } else if ends_with(text, "\n"@) {
        lemma_lines_join_nl(l0);
    } else if l0.last().len() > 0 {
        assert(r =~= j);
        lemma_lines_join(l0);
    } else {
        let l1 = l0.drop_last();
        assert(l0[l0.len() - 2].len() > 0 || l0[l0.len() - 1].len() > 0);
        assert(l0.last() =~= Seq::<char>::empty());
        assert(j == join(l1, "\n"@) + "\n"@ + l0.last());
        assert(r =~= join(l1, "\n"@) + "\n"@);
        assert(clean_lines(l1)) by {
            assert forall|k: int| 0 <= k < l1.len() implies !(#[trigger] l1[k]).contains('\n') && (l1[k].len() == 0 || l1[k].last() != '\r') by {
                assert(l1[k] == l0[k]);
            }
        }
        lemma_lines_join_nl(l1);
    }
}

/// The lines of the formatted text: no blank line follows another, a line
/// that begins (after white space) with `#` has no white space around it,
/// and there are as many non-empty lines as the text has lines with more
/// than white space.
pub proof fn law_format_output_lines(text: Seq<char>, tab_size: nat, insert_spaces: bool)
    ensures
        ({
            let out = lines_of(formatted(text, tab_size, insert_spaces));
            &&& forall|i: int| 0 <= i < out.len() - 1 ==> (#[trigger] out[i]).len() > 0 || out[i + 1].len() > 0
            &&& forall|i: int|
                0 <= i < out.len() && starts_with(crate::text::trim_start(#[trigger] out[i]), "#"@) ==> out[i] == trim(
                    out[i],
                )
            &&& out.filter(crate::laws::nonempty_line()).len() == crate::laws::content_lines(
                lines_of(text),
                lines_of(text).len(),
            )
        }),
{
    reveal_strlit("#");
    let unit = indent_unit(tab_size, insert_spaces);
    let ls = lines_of(text);
    let l0 = format_scan(ls, ls.len(), unit).lines;
    let out = lines_of(formatted(text, tab_size, insert_spaces));
    lemma_output_lines(text, tab_size, insert_spaces);
    crate::laws::law_format_blank_lines(ls, ls.len(), unit);
    crate::laws::law_format_directives_flush(ls, ls.len(), tab_size, insert_spaces);
    crate::laws::law_format_keeps_content_lines(ls, ls.len(), unit);
    if out == l0 {
    } else if l0.len() > 0 && l0.last().len() == 0 && out == l0.drop_last() {
        assert(l0 =~= out.push(l0.last()));
        crate::text::lemma_filter_push(out, l0.last(), crate::laws::nonempty_line());
        assert forall|i: int| 0 <= i < out.len() - 1 implies (#[trigger] out[i]).len() > 0 || out[i + 1].len() > 0 by {
            assert(out[i] == l0[i]);
            assert(out[i + 1] == l0[i + 1]);
        }
        assert forall|i: int|
            0 <= i < out.len() && starts_with(crate::text::trim_start(#[trigger] out[i]), "#"@) implies out[i] == trim(out[i]) by {
            assert(out[i] == l0[i]);
        }
    } else {
        assert(out == seq![Seq::<char>::empty()]);
        lemma_trim_empty();
        let e = Seq::<char>::empty();
        assert(crate::text::trim_start(e) =~= e);
        assert(!starts_with(e, "#"@));
        crate::text::lemma_filter_push(Seq::<Seq<char>>::empty(), e, crate::laws::nonempty_line());
        crate::text::lemma_filter_empty(Seq::<Seq<char>>::empty(), crate::laws::nonempty_line());
        crate::text::lemma_filter_empty(l0, crate::laws::nonempty_line());
        assert(Seq::<Seq<char>>::empty().push(e) =~= out);
    }
}

} // verus!
