//! The built-in GLSL formatter: spacing of one line, brace counting and
//! re-indentation of a document, and the edit that replaces a document by
//! its formatted text.
use vstd::prelude::*;
use crate::symbols::lit;
use crate::text::{
    char_is_whitespace, chars_of, ends_with, ends_with_of, eq, extend, is_ws, join, lines_of, lines_of_vec,
    slice_of, starts_with, starts_with_of, string_of, trim, trim_of, views,
};

verus! {

/// The numbers of `{` and `}` from index `i` on, outside string literals and
/// before a `//` comment, added to `open` and `close`.
pub open spec fn brace_counts(s: Seq<char>, i: int, in_str: bool, open: nat, close: nat) -> (nat, nat)
    decreases s.len() - i,
{
    if i < 0 || i >= s.len() {
        (open, close)
    } else if s[i] == '"' {
        brace_counts(s, i + 1, !in_str, open, close)
    } else if in_str {
        brace_counts(s, i + 1, in_str, open, close)
    } else if s[i] == '/' && i + 1 < s.len() && s[i + 1] == '/' {
        (open, close)
    } else if s[i] == '{' {
        brace_counts(s, i + 1, in_str, open + 1, close)
    } else if s[i] == '}' {
        brace_counts(s, i + 1, in_str, open, close + 1)
    } else {
        brace_counts(s, i + 1, in_str, open, close)
    }
}

/// The numbers of opening and closing braces of a line that count for indentation.
pub fn analyze_line_braces(line: &str) -> (r: (usize, usize))
    ensures
        r.0 == brace_counts(line@, 0, false, 0, 0).0,
        r.1 == brace_counts(line@, 0, false, 0, 0).1,
{
    let s = chars_of(line);
    let mut open: usize = 0;
    let mut close: usize = 0;
    let mut in_str = false;
    let mut i: usize = 0;
    while i < s.len()
        invariant_except_break
            i <= s.len(),
            open + close <= i,
            brace_counts(s@, 0, false, 0, 0) == brace_counts(s@, i as int, in_str, open as nat, close as nat),
        ensures
            brace_counts(s@, 0, false, 0, 0) == (open as nat, close as nat),
        decreases s.len() - i,
    {
        let c = s[i];
        if c == '"' {
            in_str = !in_str;
        } else if in_str {
        } else if c == '/' && i + 1 < s.len() && s[i + 1] == '/' {
            break;
        } else if c == '{' {
            open = open + 1;
        } else if c == '}' {
            close = close + 1;
        }
        i = i + 1;
    }
    (open, close)
}

/// The spacing of a line from index `i` on: runs of spaces collapsed, a space
/// after each comma, before `{` and between `)` and `{`; string literals and
/// a `//` comment are kept as they are. `prev` is the last character put out.
pub open spec fn clean_from(s: Seq<char>, i: int, in_str: bool, prev: Option<char>) -> Seq<char>
    decreases s.len() - i,
{
    if i < 0 || i >= s.len() {
        seq![]
    } else {
        let c = s[i];
        if c == '"' {
            seq![c] + clean_from(s, i + 1, !in_str, Some(c))
        } else if in_str {
            seq![c] + clean_from(s, i + 1, in_str, Some(c))
        } else if c == '/' && i + 1 < s.len() && s[i + 1] == '/' {
            s.skip(i)
        } else if c == ' ' && prev == Some(' ') {
            clean_from(s, i + 1, in_str, prev)
        } else if c == ',' {
            if i + 1 < s.len() && !is_ws(s[i + 1]) {
                seq![',', ' '] + clean_from(s, i + 1, in_str, Some(' '))
            } else {
                seq![','] + clean_from(s, i + 1, in_str, Some(','))
            }
        } else if c == ')' {
            if i + 1 < s.len() && s[i + 1] == '{' {
                seq![')', ' '] + clean_from(s, i + 1, in_str, Some(' '))
            } else {
                seq![')'] + clean_from(s, i + 1, in_str, Some(')'))
            }
        } else if c == '{' && prev is Some && !is_ws(prev.unwrap()) {
            seq![' ', '{'] + clean_from(s, i + 1, in_str, Some('{'))
        } else {
            seq![c] + clean_from(s, i + 1, in_str, Some(c))
        }
    }
}

/// A line with its spacing cleaned and `if(`, `for(` or `while(` at its
/// start given a space before the parenthesis.
pub open spec fn cleaned_line(line: Seq<char>) -> Seq<char> {
    let r = clean_from(line, 0, false, None);
    if starts_with(r, "if("@) {
        "if ("@ + r.skip(3)
    } else if starts_with(r, "for("@) {
        "for ("@ + r.skip(4)
    } else if starts_with(r, "while("@) {
        "while ("@ + r.skip(6)
    } else {
        r
    }
}

/// The spacing of a line cleaned (see [`cleaned_line`]).
pub fn clean_glsl_line_syntax(line: &str) -> (r: String)
    ensures
        r@ == cleaned_line(line@),
{
    let s = chars_of(line);
    let mut out: Vec<char> = Vec::new();
    let mut in_str = false;
    let mut prev: Option<char> = None;
    let mut i: usize = 0;
    while i < s.len()
        invariant_except_break
            i <= s.len(),
            out@ + clean_from(s@, i as int, in_str, prev) == clean_from(s@, 0, false, None),
        ensures
            out@ == clean_from(s@, 0, false, None),
        decreases s.len() - i,
    {
        let ghost o = out@;
        let c = s[i];
        if c == '"' {
            in_str = !in_str;
            out.push(c);
            prev = Some(c);
        } else if in_str {
            out.push(c);
            prev = Some(c);
        } else if c == '/' && i + 1 < s.len() && s[i + 1] == '/' {
            let rest = slice_of(&s, i, s.len());
            extend(&mut out, &rest);
            break;
        } else if c == ' ' && prev == Some(' ') {
        } else if c == ',' {
            out.push(',');
            if i + 1 < s.len() && !char_is_whitespace(s[i + 1]) {
                out.push(' ');
                prev = Some(' ');
                assert(out@ =~= o + seq![',', ' ']);
            } else {
                prev = Some(',');
            }
        } else if c == ')' {
            out.push(')');
            if i + 1 < s.len() && s[i + 1] == '{' {
                out.push(' ');
                prev = Some(' ');
                assert(out@ =~= o + seq![')', ' ']);
            } else {
                prev = Some(')');
            }
        } else if c == '{' && prev.is_some() && !char_is_whitespace(prev.unwrap()) {
            out.push(' ');
            out.push('{');
            prev = Some('{');
            assert(out@ =~= o + seq![' ', '{']);
        } else {
            out.push(c);
            prev = Some(c);
        }
        i = i + 1;
    }
    let r = out;
    proof {
        reveal_strlit("if(");
        reveal_strlit("for(");
        reveal_strlit("while(");
    }
    if starts_with_of(&r, &lit("if(")) {
        let mut v = lit("if (");
        extend(&mut v, &slice_of(&r, 3, r.len()));
        string_of(&v)
    } else if starts_with_of(&r, &lit("for(")) {
        let mut v = lit("for (");
        extend(&mut v, &slice_of(&r, 4, r.len()));
        string_of(&v)
    } else if starts_with_of(&r, &lit("while(")) {
        let mut v = lit("while (");
        extend(&mut v, &slice_of(&r, 6, r.len()));
        string_of(&v)
    } else {
        string_of(&r)
    }
}


/// The number of `}` at the start of a line, white space between them skipped.
pub open spec fn leading_closes(s: Seq<char>) -> nat
    decreases s.len(),
{
    if s.len() == 0 {
        0
    } else if s[0] == '}' {
        1 + leading_closes(s.skip(1))
    } else if is_ws(s[0]) {
        leading_closes(s.skip(1))
    } else {
        0
    }
}

/// `a - b`, or zero.
pub open spec fn sat_sub(a: nat, b: nat) -> nat {
    if a >= b {
        (a - b) as nat
    } else {
        0
    }
}

/// `a + b`, or the largest `usize`.
pub open spec fn sat_add(a: nat, b: nat) -> nat {
    if a + b > usize::MAX {
        usize::MAX as nat
    } else {
        a + b
    }
}

/// The indentation unit: `tab_size` spaces (at least one), or a tab.
pub open spec fn indent_unit(tab_size: nat, insert_spaces: bool) -> Seq<char> {
    if insert_spaces {
        Seq::new(if tab_size > 1 { tab_size } else { 1 }, |i: int| ' ')
    } else {
        seq!['\t']
    }
}

/// `s` repeated `n` times.
pub open spec fn repeat(s: Seq<char>, n: nat) -> Seq<char>
    decreases n,
{
    if n == 0 {
        seq![]
    } else {
        repeat(s, (n - 1) as nat) + s
    }
}

/// The state of the formatter after some lines: the lines put out, the
/// indentation level, and whether the last line put out was blank.
pub struct FormatState {
    pub lines: Seq<Seq<char>>,
    pub indent: nat,
    pub blank: bool,
}

/// The indentation level of a cleaned line at level `indent`: closing braces
/// at its start take it out, `case` and `default:` labels one level out.
pub open spec fn line_indent(cleaned: Seq<char>, indent: nat) -> nat {
    if leading_closes(cleaned) > 0 {
        sat_sub(indent, leading_closes(cleaned))
    } else if starts_with(cleaned, "case "@) || starts_with(cleaned, "default:"@) {
        sat_sub(indent, 1)
    } else {
        indent
    }
}

/// One line of the formatter: blank lines collapse to one (none at the
/// start), directives go to column zero, other lines are cleaned and
/// indented.
pub open spec fn format_step(st: FormatState, line: Seq<char>, unit: Seq<char>) -> FormatState {
    let t = trim(line);
    if t.len() == 0 {
        if !st.blank && st.lines.len() > 0 {
            FormatState { lines: st.lines.push(seq![]), indent: st.indent, blank: true }
        } else {
            st
        }
    } else if starts_with(t, "#"@) {
        FormatState { lines: st.lines.push(t), indent: st.indent, blank: false }
    } else {
        let c = cleaned_line(t);
        let b = brace_counts(c, 0, false, 0, 0);
        FormatState {
            lines: st.lines.push(repeat(unit, line_indent(c, st.indent)) + c),
            indent: sat_add(sat_sub(st.indent, b.1), b.0),
            blank: false,
        }
    }
}

/// The formatter over the first `n` lines.
pub open spec fn format_scan(ls: Seq<Seq<char>>, n: nat, unit: Seq<char>) -> FormatState
    decreases n,
{
    if n == 0 || n > ls.len() {
        FormatState { lines: seq![], indent: 0, blank: false }
    } else {
        format_step(format_scan(ls, (n - 1) as nat, unit), ls[n - 1], unit)
    }
}

/// The text formatted: its lines re-indented with `tab_size` spaces (or
/// tabs) per level and joined by newlines, with a final newline if the text
/// had one.
pub open spec fn formatted(text: Seq<char>, tab_size: nat, insert_spaces: bool) -> Seq<char> {
    let ls = lines_of(text);
    let st = format_scan(ls, ls.len(), indent_unit(tab_size, insert_spaces));
    join(st.lines, "\n"@) + if ends_with(text, "\n"@) {
        "\n"@
    } else {
        seq![]
    }
}

fn leading_closes_of(s: &Vec<char>) -> (r: usize)
    ensures
        r == leading_closes(s@),
{
    let mut n: usize = 0;
    let mut i: usize = 0;
    assert(s@.skip(0) =~= s@);
    while i < s.len()
        invariant_except_break
            i <= s.len(),
            n <= i,
            leading_closes(s@) == n + leading_closes(s@.skip(i as int)),
        ensures
            leading_closes(s@) == n,
        decreases s.len() - i,
    {
        assert(s@.skip(i as int).skip(1) =~= s@.skip(i + 1));
        assert(s@.skip(i as int)[0] == s@[i as int]);
        if s[i] == '}' {
            n = n + 1;
        } else if !char_is_whitespace(s[i]) {
            break;
        }
        i = i + 1;
    }
    n
}

fn push_repeat(out: &mut Vec<char>, unit: &Vec<char>, n: usize)
    ensures
        final(out)@ == old(out)@ + repeat(unit@, n as nat),
{
    let mut k: usize = 0;
    let ghost o = out@;
    while k < n
        invariant
            k <= n,
            out@ == o + repeat(unit@, k as nat),
        decreases n - k,
    {
        extend(out, unit);
        assert(repeat(unit@, (k + 1) as nat) == repeat(unit@, k as nat) + unit@);
        k = k + 1;
    }
}

/// The built-in formatting of a GLSL text (see [`formatted`]).
pub fn basic_glsl_format(text: &str, tab_size: usize, insert_spaces: bool) -> (r: String)
    ensures
        r@ == formatted(text@, tab_size as nat, insert_spaces),
        ends_with(text@, "\n"@) ==> ends_with(r@, "\n"@),
        r@.len() > 0 && r@[0] == '\n' ==> r@ == "\n"@,
        formatted(r@, tab_size as nat, insert_spaces) == r@,
{
    proof {
        crate::laws::law_format_text_ends(text@, tab_size as nat, insert_spaces);
        crate::format_laws::law_format_idempotent(text@, tab_size as nat, insert_spaces);
    }
    let unit: Vec<char> = if insert_spaces {
        let w = if tab_size > 1 { tab_size } else { 1 };
        let mut u: Vec<char> = Vec::new();
        let mut k: usize = 0;
        while k < w
            invariant
                k <= w,
                u@ == Seq::new(k as nat, |i: int| ' '),
            decreases w - k,
        {
            u.push(' ');
            assert(u@ =~= Seq::new((k + 1) as nat, |i: int| ' '));
            k = k + 1;
        }
        u
    } else {
        let mut u: Vec<char> = Vec::new();
        u.push('\t');
        assert(u@ =~= seq!['\t']);
        u
    };
    let t = chars_of(text);
    let ls = lines_of_vec(&t);
    let mut out_lines: Vec<Vec<char>> = Vec::new();
    let mut indent: usize = 0;
    let mut blank = false;
    let mut i: usize = 0;
    proof {
        reveal_strlit("#");
        assert(views(out_lines@) =~= Seq::<Seq<char>>::empty());
    }
    while i < ls.len()
        invariant
            i <= ls.len(),
            views(ls@) == lines_of(text@),
            unit@ == indent_unit(tab_size as nat, insert_spaces),
            format_scan(views(ls@), i as nat, unit@) == (FormatState {
                lines: views(out_lines@),
                indent: indent as nat,
                blank,
            }),
        decreases ls.len() - i,
    {
        assert(views(ls@)[i as int] == ls@[i as int]@);
        let tr = trim_of(&ls[i]);
        let ghost before = views(out_lines@);
        if tr.len() == 0 {
            if !blank && out_lines.len() > 0 {
                out_lines.push(Vec::new());
                blank = true;
                assert(views(out_lines@) =~= before.push(seq![]));
            }
        } else if starts_with_of(&tr, &lit("#")) {
            out_lines.push(tr);
            blank = false;
            assert(views(out_lines@) =~= before.push(tr@));
        } else {
            blank = false;
            let trs = string_of(&tr);
            let cleaned = clean_glsl_line_syntax(trs.as_str());
            let braces = analyze_line_braces(cleaned.as_str());
            let c = chars_of(cleaned.as_str());
            let lc = leading_closes_of(&c);
            let li = if lc > 0 {
                if indent >= lc { indent - lc } else { 0 }
            } else if starts_with_of(&c, &lit("case ")) || starts_with_of(&c, &lit("default:")) {
                if indent >= 1 { indent - 1 } else { 0 }
            } else {
                indent
            };
            let mut line: Vec<char> = Vec::new();
            push_repeat(&mut line, &unit, li);
            extend(&mut line, &c);
            assert(line@ =~= repeat(unit@, li as nat) + c@);
            out_lines.push(line);
            assert(views(out_lines@) =~= before.push(repeat(unit@, li as nat) + c@));
            let sub = if indent >= braces.1 { indent - braces.1 } else { 0 };
            indent = if sub > usize::MAX - braces.0 { usize::MAX } else { sub + braces.0 };
        }
        i = i + 1;
    }
    let mut res = crate::symbols::join_of(&out_lines, &lit("\n"));
    if ends_with_of(&t, &lit("\n")) {
        extend(&mut res, &lit("\n"));
    } else {
        assert(res@ =~= res@ + Seq::<char>::empty());
    }
    string_of(&res)
}

/// The edit that replaces a whole document: the end of its last line
/// (line and column) and the new text.
pub struct FormatEdit {
    pub end_line: usize,
    pub end_col: usize,
    pub new_text: String,
}

/// Mathematical value of a [`FormatEdit`].
pub struct FormatEditView {
    pub end_line: nat,
    pub end_col: nat,
    pub new_text: Seq<char>,
}

impl View for FormatEdit {
    type V = FormatEditView;

    open spec fn view(&self) -> FormatEditView {
        FormatEditView { end_line: self.end_line as nat, end_col: self.end_col as nat, new_text: self.new_text@ }
    }
}

/// The edits that turn `text` into `formatted`: none if they are equal, else
/// one edit that replaces everything up to the end of the last line.
pub open spec fn format_edits(text: Seq<char>, formatted: Seq<char>) -> Seq<FormatEditView> {
    if formatted == text {
        seq![]
    } else {
        let ls = lines_of(text);
        seq![
            FormatEditView {
                end_line: sat_sub(ls.len(), 1),
                end_col: if ls.len() > 0 {
                    ls.last().len()
                } else {
                    0
                },
                new_text: formatted,
            },
        ]
    }
}

/// The edits that format a document: with the text that clang-format gave
/// (`clang_output`) where it was asked and answered, else with the built-in
/// formatter.
pub fn format_document(text: &str, clang_output: Option<String>, tab_size: usize, insert_spaces: bool) -> (r: Vec<
    FormatEdit,
>)
    ensures
        r@.map_values(|e: FormatEdit| e@) == format_edits(
            text@,
            match clang_output {
                Some(s) => s@,
                None => formatted(text@, tab_size as nat, insert_spaces),
            },
        ),
{
    let f = match clang_output {
        Some(s) => s,
        None => basic_glsl_format(text, tab_size, insert_spaces),
    };
    let t = chars_of(text);
    let fc = chars_of(f.as_str());
    let mut r: Vec<FormatEdit> = Vec::new();
    if eq(&fc, &t) {
        assert(r@.map_values(|e: FormatEdit| e@) =~= Seq::<FormatEditView>::empty());
        return r;
    }
    let ls = lines_of_vec(&t);
    let end_line = if ls.len() >= 1 { ls.len() - 1 } else { 0 };
    let end_col = if ls.len() > 0 {
        assert(views(ls@).last() == ls@[ls.len() - 1]@);
        ls[ls.len() - 1].len()
    } else {
        0
    };
    r.push(FormatEdit { end_line, end_col, new_text: f });
    assert(r@.map_values(|e: FormatEdit| e@) =~= format_edits(t@, fc@));
    r
}

} // verus!
