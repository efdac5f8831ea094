//! The input given to the shader compiler and the diagnostics read from its
//! output.
use vstd::prelude::*;
use crate::config::TargetApi;
use crate::symbols::lit;
use crate::text::{
    chars_of, contains, contains_of, extend, join, lines_of, lines_of_vec, slice_of, split_char,
    split_char_of, starts_with, starts_with_of, string_of, trim, trim_of, views,
};

verus! {

/// A diagnostic of the compiler: zero-based line, start and end columns,
/// severity (1 error, 2 warning), source label and message.
pub struct Diagnostic {
    pub line: u32,
    pub start_col: u32,
    pub end_col: u32,
    pub severity: u32,
    pub source: String,
    pub message: String,
}

/// Mathematical value of a [`Diagnostic`].
pub struct DiagnosticView {
    pub line: u32,
    pub start_col: u32,
    pub end_col: u32,
    pub severity: u32,
    pub source: Seq<char>,
    pub message: Seq<char>,
}

impl View for Diagnostic {
    type V = DiagnosticView;

    open spec fn view(&self) -> DiagnosticView {
        DiagnosticView {
            line: self.line,
            start_col: self.start_col,
            end_col: self.end_col,
            severity: self.severity,
            source: self.source@,
            message: self.message@,
        }
    }
}

pub open spec fn diagnostics_view(v: Seq<Diagnostic>) -> Seq<DiagnosticView> {
    v.map_values(|d: Diagnostic| d@)
}

/// The text given to the compiler: the resolved header (if any) before the shader.
pub open spec fn compile_text(header: Option<Seq<char>>, text: Seq<char>) -> Seq<char> {
    match header {
        Some(h) => h + text,
        None => text,
    }
}

/// The text given to the compiler (see [`compile_text`]).
pub fn compile_input(header: Option<String>, text: &str) -> (r: String)
    ensures
        r@ == compile_text(crate::symbols::opt_view(header), text@),
{
    let mut v = match header {
        Some(h) => chars_of(h.as_str()),
        None => Vec::new(),
    };
    extend(&mut v, &chars_of(text));
    string_of(&v)
}

/// Whether the input is run through the preprocessor first: for OpenGL, when
/// it has an `#include`.
pub fn needs_preprocessing(target: TargetApi, input: &str) -> (r: bool)
    ensures
        r == (target == TargetApi::OpenGl && contains(input@, "#include"@)),
{
    match target {
        TargetApi::OpenGl => contains_of(&chars_of(input), &lit("#include")),
        TargetApi::Vulkan => false,
    }
}

/// The decimal value of a string of digits.
pub open spec fn digits_value(s: Seq<char>) -> nat
    decreases s.len(),
{
    if s.len() == 0 {
        0
    } else {
        digits_value(s.drop_last()) * 10 + ((s.last() as nat) - 48) as nat
    }
}

/// Every character is a decimal digit.
pub open spec fn all_digits(s: Seq<char>) -> bool {
    forall|i: int| 0 <= i < s.len() ==> '0' <= #[trigger] s[i] && s[i] <= '9'
}

/// `u32` read from text as `str::parse` reads it: an optional `+`, then one
/// or more decimal digits, of a value that fits.
pub open spec fn parse_u32(s: Seq<char>) -> Option<u32> {
    let d = if s.len() > 0 && s[0] == '+' {
        s.skip(1)
    } else {
        s
    };
    if d.len() > 0 && all_digits(d) && digits_value(d) <= u32::MAX {
        Some(digits_value(d) as u32)
    } else {
        None
    }
}

pub proof fn lemma_digits_grow(s: Seq<char>, k: int)
    requires
        0 <= k <= s.len(),
        all_digits(s),
    ensures
        digits_value(s.take(k)) <= digits_value(s),
    decreases s.len() - k,
{
    if k < s.len() {
        lemma_digits_grow(s, k + 1);
        assert(s.take(k + 1).drop_last() =~= s.take(k));
        assert('0' <= s[k] && s[k] <= '9');
    } else {
        assert(s.take(k) =~= s);
    }
}

fn parse_u32_of(s: &Vec<char>) -> (r: Option<u32>)
    ensures
        r == parse_u32(s@),
{
    let start: usize = if s.len() > 0 && s[0] == '+' { 1 } else { 0 };
    let d = slice_of(s, start, s.len());
    assert(start == 0 ==> d@ =~= s@);
    assert(start == 1 ==> d@ =~= s@.skip(1));
    if d.len() == 0 {
        return None;
    }
    let mut v: u64 = 0;
    let mut i: usize = 0;
    while i < d.len()
        invariant
            i <= d.len(),
            d.len() > 0,
            d@ == (if s@.len() > 0 && s@[0] == '+' {
                s@.skip(1)
            } else {
                s@
            }),
            forall|j: int| 0 <= j < i ==> '0' <= #[trigger] d@[j] && d@[j] <= '9',
            v == digits_value(d@.take(i as int)),
            v <= u32::MAX,
        decreases d.len() - i,
    {
        let c = d[i];
        if !('0' <= c && c <= '9') {
            assert(!('0' <= d@[i as int] && d@[i as int] <= '9'));
            assert(!all_digits(d@));
            return None;
        }
        assert(d@.take(i + 1).drop_last() =~= d@.take(i as int));
        assert(d@.take(i + 1).last() == c);
        let nv = v * 10 + ((c as u32) - 48) as u64;
        assert(digits_value(d@.take(i + 1)) == nv);
        if nv > 0xffff_ffff {
            proof {
                if all_digits(d@) {
                    lemma_digits_grow(d@, i + 1);
                }
            }
            return None;
        }
        v = nv;
        i = i + 1;
    }
    assert(d@.take(d.len() as int) =~= d@);
    Some(v as u32)
}

/// `s` without any number of copies of `pat` at its start.
pub open spec fn strip_prefixes(s: Seq<char>, pat: Seq<char>) -> Seq<char>
    decreases s.len(),
{
    if pat.len() > 0 && starts_with(s, pat) {
        strip_prefixes(s.skip(pat.len() as int), pat)
    } else {
        s
    }
}

/// At most four pieces of `s` separated by `:`, as `str::splitn(4, ':')` gives them.
pub open spec fn split4(s: Seq<char>) -> Seq<Seq<char>> {
    let p = split_char(s, ':');
    if p.len() <= 4 {
        p
    } else {
        p.take(3).push(join(p.skip(3), ":"@))
    }
}

/// The columns and message of a diagnostic with the given pieces.
pub open spec fn diag_place(parts: Seq<Seq<char>>) -> (u32, u32, Seq<char>) {
    if parts.len() == 4 {
        match parse_u32(trim(parts[2])) {
            Some(c) => {
                let col = if c >= 1 {
                    (c - 1) as u32
                } else {
                    0u32
                };
                let plus4 = if col + 4 > u32::MAX {
                    u32::MAX
                } else {
                    (col + 4) as u32
                };
                (col, if plus4 >= col + 1 {
                    plus4
                } else {
                    (col + 1) as u32
                }, trim(parts[3]))
            },
            None => (0, 999, trim(parts[2]) + ": "@ + trim(parts[3])),
        }
    } else {
        (0, 999, trim(parts[2]))
    }
}

/// The diagnostic of one output line of the compiler: `ERROR: ` or
/// `WARNING: ` followed by `source:line:column: message` or
/// `source:line: message`; summary lines and lines of other forms give none.
pub open spec fn diagnostic_of(line: Seq<char>, label: Seq<char>) -> Option<DiagnosticView> {
    let t = trim(line);
    let err = starts_with(t, "ERROR: "@);
    let warn = starts_with(t, "WARNING: "@);
    if !err && !warn {
        None
    } else {
        let rest = if err {
            t.skip(7)
        } else {
            t.skip(9)
        };
        if contains(rest, "compilation errors"@) || contains(rest, "No code generated"@) {
            None
        } else {
            let parts = split4(rest);
            if parts.len() < 3 {
                None
            } else {
                match parse_u32(trim(parts[1])) {
                    None => None,
                    Some(n) => {
                        let place = diag_place(parts);
                        Some(
                            DiagnosticView {
                                line: if n >= 1 {
                                    (n - 1) as u32
                                } else {
                                    0u32
                                },
                                start_col: place.0,
                                end_col: place.1,
                                severity: if err {
                                    1
                                } else {
                                    2
                                },
                                source: label,
                                message: trim(strip_prefixes(place.2, "'' :"@)),
                            },
                        )
                    },
                }
            }
        }
    }
}

/// The diagnostics of the output lines from `i` on.
pub open spec fn diagnostics_from(ls: Seq<Seq<char>>, i: int, label: Seq<char>) -> Seq<DiagnosticView>
    decreases ls.len() - i,
{
    if i < 0 || i >= ls.len() {
        seq![]
    } else {
        (match diagnostic_of(ls[i], label) {
            Some(d) => seq![d],
            None => seq![],
        }) + diagnostics_from(ls, i + 1, label)
    }
}

fn split4_of(s: &Vec<char>) -> (r: Vec<Vec<char>>)
    ensures
        views(r@) == split4(s@),
{
    let p = split_char_of(s, ':');
    if p.len() <= 4 {
        return p;
    }
    let mut r: Vec<Vec<char>> = Vec::new();
    let mut i: usize = 0;
    while i < 3
        invariant
            i <= 3,
            p.len() > 4,
            views(r@) == views(p@).take(i as int),
        decreases 3 - i,
    {
        let e = slice_of(&p[i], 0, p[i].len());
        assert(e@ =~= p@[i as int]@);
        let ghost before = views(r@);
        r.push(e);
        assert(views(r@) =~= before.push(views(p@)[i as int]));
        assert(views(p@).take(i + 1) =~= views(p@).take(i as int).push(views(p@)[i as int]));
        i = i + 1;
    }
    let mut tail: Vec<Vec<char>> = Vec::new();
    let mut k: usize = 3;
    while k < p.len()
        invariant
            3 <= k <= p.len(),
            views(tail@) == views(p@).subrange(3, k as int),
        decreases p.len() - k,
    {
        let e = slice_of(&p[k], 0, p[k].len());
        assert(e@ =~= p@[k as int]@);
        let ghost before = views(tail@);
        tail.push(e);
        assert(views(tail@) =~= before.push(views(p@)[k as int]));
        assert(views(p@).subrange(3, k + 1) =~= views(p@).subrange(3, k as int).push(views(p@)[k as int]));
        k = k + 1;
    }
    assert(views(tail@) =~= views(p@).skip(3));
    let j = crate::symbols::join_of(&tail, &lit(":"));
    r.push(j);
    assert(views(r@) =~= views(p@).take(3).push(join(views(p@).skip(3), ":"@)));
    r
}

fn strip_prefixes_of(s: &Vec<char>, pat: &Vec<char>) -> (r: Vec<char>)
    ensures
        r@ == strip_prefixes(s@, pat@),
{
    let mut cur = slice_of(s, 0, s.len());
    assert(cur@ =~= s@);
    while pat.len() > 0 && starts_with_of(&cur, pat)
        invariant
            strip_prefixes(cur@, pat@) == strip_prefixes(s@, pat@),
        decreases cur.len(),
    {
        cur = slice_of(&cur, pat.len(), cur.len());
    }
    cur
}

fn sat_dec(n: u32) -> (r: u32)
    ensures
        r == (if n >= 1 {
            (n - 1) as u32
        } else {
            0u32
        }),
{
    if n >= 1 { n - 1 } else { 0 }
}

fn diagnostic_of_line(line: &Vec<char>, label: &Vec<char>) -> (r: Option<Diagnostic>)
    ensures
        match diagnostic_of(line@, label@) {
            Some(d) => r matches Some(x) && x@ == d,
            None => r is None,
        },
{
    let t = trim_of(line);
    let err = starts_with_of(&t, &lit("ERROR: "));
    let warn = starts_with_of(&t, &lit("WARNING: "));
    if !err && !warn {
        return None;
    }
    proof {
        reveal_strlit("ERROR: ");
        reveal_strlit("WARNING: ");
    }
    let rest = if err { slice_of(&t, 7, t.len()) } else { slice_of(&t, 9, t.len()) };
    assert(err ==> rest@ =~= t@.skip(7));
    assert(!err ==> rest@ =~= t@.skip(9));
    if contains_of(&rest, &lit("compilation errors")) || contains_of(&rest, &lit("No code generated")) {
        return None;
    }
    let parts = split4_of(&rest);
    if parts.len() < 3 {
        return None;
    }
    assert(views(parts@)[1] == parts@[1]@);
    assert(views(parts@)[2] == parts@[2]@);
    let n = match parse_u32_of(&trim_of(&parts[1])) {
        Some(n) => n,
        None => {
            return None;
        },
    };
    let (sc, ec, msg) = if parts.len() == 4 {
        assert(views(parts@)[3] == parts@[3]@);
        match parse_u32_of(&trim_of(&parts[2])) {
            Some(c) => {
                let col = sat_dec(c);
                let plus4 = if col > 0xffff_fffb { 0xffff_ffffu32 } else { col + 4 };
                let end = if plus4 >= col + 1 { plus4 } else { col + 1 };
                (col, end, trim_of(&parts[3]))
            },
            None => {
                let mut m = trim_of(&parts[2]);
                extend(&mut m, &lit(": "));
                extend(&mut m, &trim_of(&parts[3]));
                (0u32, 999u32, m)
            },
        }
    } else {
        (0u32, 999u32, trim_of(&parts[2]))
    };
    let cleaned = trim_of(&strip_prefixes_of(&msg, &lit("'' :")));
    Some(
        Diagnostic {
            line: sat_dec(n),
            start_col: sc,
            end_col: ec,
            severity: if err { 1 } else { 2 },
            source: string_of(label),
            message: string_of(&cleaned),
        },
    )
}

/// The diagnostics in the output of the compiler, each with source `label`.
pub fn parse_compiler_output(output: &str, label: &str) -> (r: Vec<Diagnostic>)
    ensures
        diagnostics_view(r@) == diagnostics_from(lines_of(output@), 0, label@),
{
    let o = chars_of(output);
    let l = chars_of(label);
    let ls = lines_of_vec(&o);
    let mut out: Vec<Diagnostic> = Vec::new();
    let mut i: usize = 0;
    assert(diagnostics_view(out@) =~= Seq::<DiagnosticView>::empty());
    while i < ls.len()
        invariant
            i <= ls.len(),
            views(ls@) == lines_of(output@),
            l@ == label@,
            diagnostics_view(out@) + diagnostics_from(views(ls@), i as int, label@) == diagnostics_from(
                views(ls@),
                0,
                label@,
            ),
        decreases ls.len() - i,
    {
        assert(views(ls@)[i as int] == ls@[i as int]@);
        let ghost before = diagnostics_view(out@);
        match diagnostic_of_line(&ls[i], &l) {
            Some(d) => {
                out.push(d);
                assert(diagnostics_view(out@) =~= before + seq![diagnostic_of(views(ls@)[i as int], label@).unwrap()]);
            },
            None => {
                assert(diagnostics_view(out@) =~= before + Seq::<DiagnosticView>::empty());
            },
        }
        i = i + 1;
    }
    assert(diagnostics_view(out@) =~= diagnostics_view(out@) + Seq::<DiagnosticView>::empty());
    out
}

} // verus!
