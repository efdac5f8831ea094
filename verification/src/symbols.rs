//! Symbols declared in GLSL source: user functions (with their doc comments
//! and parameters) and user variables, constants, macros, structs and
//! interface blocks.
use vstd::prelude::*;
use crate::lexical::{in_list, word_in_list};
use crate::text::{
    char_is_alphabetic, char_is_alphanumeric, chars_of, eq, extend, find, find_of, alphanumeric,
    alphabetic, is_ident_char, join, lines_of, lines_of_vec, rfind, rfind_of, slice_of, split_char,
    split_char_of, starts_with, starts_with_of, string_of, trim, trim_of, views, words, words_of,
};

verus! {

/// Return types that never start a function declaration.
pub const INVALID_TYPES: [&'static str; 10] = [
    "return",
    "else",
    "case",
    "default",
    "discard",
    "break",
    "continue",
    "goto",
    "layout",
    "precision",
];

/// Names that are never declared functions or variables.
pub const INVALID_NAMES: [&'static str; 8] = [
    "if",
    "for",
    "while",
    "switch",
    "return",
    "layout",
    "struct",
    "subroutine",
];

/// A user-defined function found in GLSL source.
#[derive(Debug, Clone)]
pub struct FunctionSignature {
    pub name: String,
    pub return_type: String,
    pub label: String,
    pub parameters: Vec<String>,
    pub doc: Option<String>,
    pub source: Option<String>,
    pub line: usize,
    pub col: usize,
    pub file_uri: Option<String>,
}

/// The characters held by an optional string.
pub open spec fn opt_view(o: Option<String>) -> Option<Seq<char>> {
    match o {
        Some(s) => Some(s@),
        None => None,
    }
}

/// The characters held by an optional string slice.
pub open spec fn opt_str_view(o: Option<&str>) -> Option<Seq<char>> {
    match o {
        Some(s) => Some(s@),
        None => None,
    }
}

pub open spec fn strings_view(v: Seq<String>) -> Seq<Seq<char>> {
    v.map_values(|s: String| s@)
}

/// Mathematical value of a [`FunctionSignature`].
pub struct FunctionView {
    pub name: Seq<char>,
    pub return_type: Seq<char>,
    pub label: Seq<char>,
    pub parameters: Seq<Seq<char>>,
    pub doc: Option<Seq<char>>,
    pub source: Option<Seq<char>>,
    pub line: nat,
    pub col: nat,
    pub file_uri: Option<Seq<char>>,
}

impl View for FunctionSignature {
    type V = FunctionView;

    open spec fn view(&self) -> FunctionView {
        FunctionView {
            name: self.name@,
            return_type: self.return_type@,
            label: self.label@,
            parameters: strings_view(self.parameters@),
            doc: opt_view(self.doc),
            source: opt_view(self.source),
            line: self.line as nat,
            col: self.col as nat,
            file_uri: opt_view(self.file_uri),
        }
    }
}

pub open spec fn functions_view(v: Seq<FunctionSignature>) -> Seq<FunctionView> {
    v.map_values(|f: FunctionSignature| f@)
}

/// `Option<&str>` to `Option<String>`.
pub fn opt_to_string(o: Option<&str>) -> (r: Option<String>)
    ensures
        opt_view(r) == opt_str_view(o),
{
    match o {
        Some(s) => {
            let v = chars_of(s);
            Some(string_of(&v))
        },
        None => None,
    }
}

/// Strings from character vectors.
pub fn strings_of(v: &Vec<Vec<char>>) -> (r: Vec<String>)
    ensures
        strings_view(r@) == views(v@),
{
    let mut r: Vec<String> = Vec::new();
    let mut i: usize = 0;
    while i < v.len()
        invariant
            i <= v.len(),
            r.len() == i,
            strings_view(r@) == views(v@).take(i as int),
        decreases v.len() - i,
    {
        let s = string_of(&v[i]);
        let ghost old_r = r@;
        r.push(s);
        assert(r@ == old_r.push(s));
        assert(strings_view(r@)[i as int] == s@);
        assert(views(v@)[i as int] == v@[i as int]@);
        assert(strings_view(r@) =~= views(v@).take(i + 1));
        i = i + 1;
    }
    assert(views(v@).take(v.len() as int) =~= views(v@));
    r
}

/// The parameters written between the parentheses of a declaration: none for
/// an empty list or `void`, else the comma-separated pieces, trimmed, empty
/// ones left out.
pub open spec fn param_list(p: Seq<char>) -> Seq<Seq<char>> {
    if p.len() == 0 || p == "void"@ {
        seq![]
    } else {
        split_char(p, ',').map_values(|x: Seq<char>| trim(x)).filter(|x: Seq<char>| x.len() > 0)
    }
}

/// `"{return_type} {name}({parameters joined with ", "})"`.
pub open spec fn signature_label(ret: Seq<char>, name: Seq<char>, params: Seq<Seq<char>>) -> Seq<char> {
    ret + seq![' '] + name + seq!['('] + join(params, ", "@) + seq![')']
}

/// The documentation of a declaration: its comment lines joined with `sep`,
/// or none when there are none.
pub open spec fn doc_of(pending: Seq<Seq<char>>, sep: Seq<char>) -> Option<Seq<char>> {
    if pending.len() == 0 {
        None
    } else {
        Some(join(pending, sep))
    }
}

/// The signature described by a declaration header `h` (text up to and
/// including the closing parenthesis): the name is the last word before the
/// first `(`, the return type the word before it.
pub open spec fn header_signature(
    h: Seq<char>,
    pending: Seq<Seq<char>>,
    src: Option<Seq<char>>,
    line: nat,
    col: nat,
    uri: Option<Seq<char>>,
) -> Option<FunctionView> {
    match (find(h, seq!['(']), rfind(h, seq![')'])) {
        (Some(open), Some(close)) => if close <= open {
            None
        } else {
            let ws = words(trim(h.take(open)));
            if ws.len() < 2 {
                None
            } else {
                let name = ws[ws.len() - 1];
                let ret = ws[ws.len() - 2];
                let params = param_list(trim(h.subrange(open + 1, close)));
                Some(
                    FunctionView {
                        name,
                        return_type: ret,
                        label: signature_label(ret, name, params),
                        parameters: params,
                        doc: doc_of(pending, "\n"@),
                        source: src,
                        line,
                        col,
                        file_uri: uri,
                    },
                )
            }
        },
        _ => None,
    }
}

/// The characters of a string literal.
pub fn lit(s: &'static str) -> (r: Vec<char>)
    ensures
        r@ == s@,
{
    chars_of(s)
}

/// Pieces joined with `sep` between them.
pub fn join_of(parts: &Vec<Vec<char>>, sep: &Vec<char>) -> (r: Vec<char>)
    ensures
        r@ == join(views(parts@), sep@),
{
    let mut r: Vec<char> = Vec::new();
    let mut i: usize = 0;
    while i < parts.len()
        invariant
            i <= parts.len(),
            r@ == join(views(parts@).take(i as int), sep@),
        decreases parts.len() - i,
    {
        let ghost before = views(parts@).take(i as int);
        if i > 0 {
            extend(&mut r, sep);
        }
        extend(&mut r, &parts[i]);
        proof {
            let now = views(parts@).take(i + 1);
            assert(now.drop_last() =~= before);
            assert(now.last() == parts@[i as int]@);
            if i == 0 {
                assert(now.len() == 1);
            }
        }
        i = i + 1;
    }
    assert(views(parts@).take(parts.len() as int) =~= views(parts@));
    r
}

/// The parameter list of a declaration.
fn param_list_of(p: &Vec<char>) -> (r: Vec<Vec<char>>)
    ensures
        views(r@) == param_list(p@),
{
    let void_word = lit("void");
    if p.len() == 0 || eq(p, &void_word) {
        let r: Vec<Vec<char>> = Vec::new();
        assert(views(r@) =~= Seq::<Seq<char>>::empty());
        return r;
    }
    let pieces = split_char_of(p, ',');
    let ghost trimmed = views(pieces@).map_values(|x: Seq<char>| trim(x));
    let mut r: Vec<Vec<char>> = Vec::new();
    let mut i: usize = 0;
    proof {
        crate::text::lemma_filter_empty(trimmed.take(0), |x: Seq<char>| x.len() > 0);
    }
    assert(views(r@) =~= trimmed.take(0));
    while i < pieces.len()
        invariant
            i <= pieces.len(),
            trimmed == views(pieces@).map_values(|x: Seq<char>| trim(x)),
            views(r@) == trimmed.take(i as int).filter(|x: Seq<char>| x.len() > 0),
        decreases pieces.len() - i,
    {
        let t = trim_of(&pieces[i]);
        let ghost old_r = views(r@);
        proof {
            assert(trimmed.take(i + 1) =~= trimmed.take(i as int).push(t@));
            crate::text::lemma_filter_push(trimmed.take(i as int), t@, |x: Seq<char>| x.len() > 0);
        }
        if t.len() > 0 {
            r.push(t);
            assert(views(r@) =~= old_r.push(t@));
        }
        i = i + 1;
    }
    assert(trimmed.take(pieces.len() as int) =~= trimmed);
    r
}

/// A copy of an optional string.
pub fn opt_clone(o: &Option<String>) -> (r: Option<String>)
    ensures
        opt_view(r) == opt_view(*o),
{
    match o {
        Some(s) => Some(s.clone()),
        None => None,
    }
}

/// The signature described by a declaration header.
fn header_signature_of(
    h: &Vec<char>,
    pending: &Vec<Vec<char>>,
    src: &Option<String>,
    line: usize,
    col: usize,
    uri: &Option<String>,
) -> (r: Option<FunctionSignature>)
    ensures
        match header_signature(h@, views(pending@), opt_view(*src), line as nat, col as nat, opt_view(*uri)) {
            None => r is None,
            Some(f) => r matches Some(g) && g@ == f,
        },
{
    let open_pat = lit("(");
    let close_pat = lit(")");
    assert(open_pat@ =~= seq!['(']) by {
        reveal_strlit("(");
    }
    assert(close_pat@ =~= seq![')']) by {
        reveal_strlit(")");
    }
    let open = match find_of(h, &open_pat) {
        Some(o) => o,
        None => return None,
    };
    let close = match rfind_of(h, &close_pat) {
        Some(c) => c,
        None => return None,
    };
    if close <= open {
        return None;
    }
    proof {
        crate::text::lemma_find_from_facts(h@, seq!['('], 0);
        crate::text::lemma_rfind_to_facts(h@, seq![')'], h@.len() - 1);
    }
    let before = slice_of(h, 0, open);
    let tb = trim_of(&before);
    let ws = words_of(&tb);
    if ws.len() < 2 {
        return None;
    }
    let name = slice_of(&ws[ws.len() - 1], 0, ws[ws.len() - 1].len());
    let ret = slice_of(&ws[ws.len() - 2], 0, ws[ws.len() - 2].len());
    assert(name@ =~= views(ws@)[ws.len() - 1]);
    assert(ret@ =~= views(ws@)[ws.len() - 2]);
    let inner = slice_of(h, open + 1, close);
    let pstr = trim_of(&inner);
    let params = param_list_of(&pstr);
    let mut label: Vec<char> = Vec::new();
    extend(&mut label, &ret);
    label.push(' ');
    extend(&mut label, &name);
    label.push('(');
    let sep = lit(", ");
    let joined = join_of(&params, &sep);
    extend(&mut label, &joined);
    label.push(')');
    assert(label@ =~= signature_label(ret@, name@, views(params@)));
    let doc = if pending.len() == 0 {
        None
    } else {
        let nl = lit("\n");
        let d = join_of(pending, &nl);
        Some(string_of(&d))
    };
    let sig = FunctionSignature {
        name: string_of(&name),
        return_type: string_of(&ret),
        label: string_of(&label),
        parameters: strings_of(&params),
        doc,
        source: opt_clone(src),
        line,
        col,
        file_uri: opt_clone(uri),
    };
    Some(sig)
}

/// Brace depth after the characters of `line`, starting from `b`: `{` opens,
/// `}` closes but never below zero.
pub open spec fn brace_after(b: nat, line: Seq<char>) -> nat
    decreases line.len(),
{
    if line.len() == 0 {
        b
    } else {
        let c = line[0];
        let b1: nat = if c == '{' {
            b + 1
        } else if c == '}' {
            if b > 0 { (b - 1) as nat } else { 0 }
        } else {
            b
        };
        brace_after(b1, line.drop_first())
    }
}

pub proof fn lemma_brace_after_bound(b: nat, line: Seq<char>)
    ensures
        brace_after(b, line) <= b + line.len(),
    decreases line.len(),
{
    if line.len() > 0 {
        let c = line[0];
        let b1: nat = if c == '{' {
            b + 1
        } else if c == '}' {
            if b > 0 { (b - 1) as nat } else { 0 }
        } else {
            b
        };
        lemma_brace_after_bound(b1, line.drop_first());
    }
}

/// Brace depth after `line`.
pub fn brace_after_of(b: usize, line: &Vec<char>) -> (r: usize)
    requires
        b + line.len() <= usize::MAX,
    ensures
        r == brace_after(b as nat, line@),
{
    let mut i: usize = 0;
    let mut d = b;
    assert(line@.skip(0) =~= line@);
    while i < line.len()
        invariant
            i <= line.len(),
            d <= b + i,
            b + line.len() <= usize::MAX,
            brace_after(b as nat, line@) == brace_after(d as nat, line@.skip(i as int)),
        decreases line.len() - i,
    {
        assert(line@.skip(i as int).drop_first() =~= line@.skip(i + 1));
        let c = line[i];
        if c == '{' {
            d = d + 1;
        } else if c == '}' {
            if d > 0 {
                d = d - 1;
            }
        }
        i = i + 1;
    }
    assert(line@.skip(i as int).len() == 0);
    d
}

/// A comment line with its leading slashes and surrounding whitespace removed.
pub open spec fn slash_pred() -> spec_fn(char) -> bool {
    |c: char| c == '/'
}

pub open spec fn doc_line(line: Seq<char>) -> Seq<char> {
    trim(line.skip(crate::text::lead(line, slash_pred()) as int))
}

pub(crate) fn doc_line_of(line: &Vec<char>) -> (r: Vec<char>)
    ensures
        r@ == doc_line(line@),
{
    let mut i: usize = 0;
    while i < line.len() && line[i] == '/'
        invariant
            i <= line.len(),
            forall|j: int| 0 <= j < i ==> #[trigger] slash_pred()(line@[j]),
        decreases line.len() - i,
    {
        i = i + 1;
    }
    proof {
        crate::text::lemma_lead(line@, slash_pred(), i as int);
    }
    let rest = slice_of(line, i, line.len());
    trim_of(&rest)
}

/// A function name as accepted at a declaration: it starts with a letter or
/// `_` and consists of letters, digits and `_`.
pub open spec fn valid_fn_name(w: Seq<char>) -> bool {
    w.len() > 0 && (alphabetic(w[0]) || w[0] == '_') && forall|i: int|
        0 <= i < w.len() ==> is_ident_char(#[trigger] w[i])
}

fn valid_fn_name_of(w: &Vec<char>) -> (r: bool)
    ensures
        r == valid_fn_name(w@),
{
    if w.len() == 0 {
        return false;
    }
    if !(char_is_alphabetic(w[0]) || w[0] == '_') {
        return false;
    }
    let mut i: usize = 0;
    while i < w.len()
        invariant
            i <= w.len(),
            forall|j: int| 0 <= j < i ==> is_ident_char(#[trigger] w@[j]),
        decreases w.len() - i,
    {
        if !(char_is_alphanumeric(w[i]) || w[i] == '_') {
            return false;
        }
        i = i + 1;
    }
    true
}

/// State of the line-by-line scan for function declarations.
pub struct FnScan {
    pub results: Seq<FunctionView>,
    pub pending: Seq<Seq<char>>,
    pub brace: nat,
    pub multi: Option<(nat, nat, Seq<char>)>,
}

pub open spec fn fn_scan_start() -> FnScan {
    FnScan { results: seq![], pending: seq![], brace: 0, multi: None }
}

pub open spec fn push_some(rs: Seq<FunctionView>, f: Option<FunctionView>) -> Seq<FunctionView> {
    match f {
        Some(x) => rs.push(x),
        None => rs,
    }
}

/// A possible declaration on a top-level line: `line` is the trimmed form of
/// the raw line `raw` at index `idx`.
pub open spec fn fn_decl_step(
    st: FnScan,
    idx: nat,
    raw: Seq<char>,
    line: Seq<char>,
    src: Option<Seq<char>>,
    uri: Option<Seq<char>>,
) -> FnScan {
    match find(line, seq!['(']) {
        None => st,
        Some(open) => {
            let ws = words(trim(line.take(open)));
            if ws.len() < 2 {
                st
            } else {
                let name = ws[ws.len() - 1];
                let ret = ws[ws.len() - 2];
                if valid_fn_name(name) && !in_list(name, INVALID_NAMES) && !in_list(ret, INVALID_TYPES) {
                    let col: nat = match find(raw, name) {
                        Some(c) => crate::text::byte_col(raw, c),
                        None => 0,
                    };
                    match find(line, seq![')']) {
                        Some(ci) => FnScan {
                            results: push_some(
                                st.results,
                                header_signature(line.take(ci + 1), st.pending, src, idx, col, uri),
                            ),
                            pending: seq![],
                            ..st
                        },
                        None => FnScan { multi: Some((idx, col, line)), ..st },
                    }
                } else {
                    st
                }
            }
        },
    }
}

/// One line of the scan for function declarations.
pub open spec fn fn_step(
    st: FnScan,
    idx: nat,
    raw: Seq<char>,
    src: Option<Seq<char>>,
    uri: Option<Seq<char>>,
) -> FnScan {
    let line = trim(raw);
    match st.multi {
        Some((sl, sc, h0)) => {
            let h = h0 + seq![' '] + line;
            let st2 = match find(h, seq![')']) {
                Some(ci) => FnScan {
                    results: push_some(
                        st.results,
                        header_signature(h.take(ci + 1), st.pending, src, sl, sc, uri),
                    ),
                    pending: seq![],
                    multi: None,
                    ..st
                },
                None => FnScan { multi: Some((sl, sc, h)), ..st },
            };
            FnScan { brace: brace_after(st.brace, line), ..st2 }
        },
        None => if starts_with(line, "//"@) {
            if st.brace == 0 {
                FnScan { pending: st.pending.push(doc_line(line)), ..st }
            } else {
                st
            }
        } else if line.len() == 0 {
            if st.brace == 0 {
                FnScan { pending: seq![], ..st }
            } else {
                st
            }
        } else {
            let st2 = if st.brace == 0 && !starts_with(line, "return"@) && !starts_with(line, "#"@) {
                fn_decl_step(st, idx, raw, line, src, uri)
            } else {
                st
            };
            let st3 = FnScan { brace: brace_after(st2.brace, line), ..st2 };
            if st3.brace == 0 && st3.multi is None {
                FnScan { pending: seq![], ..st3 }
            } else {
                st3
            }
        },
    }
}

/// The scan state after the first `n` lines.
pub open spec fn fn_scan(ls: Seq<Seq<char>>, n: nat, src: Option<Seq<char>>, uri: Option<Seq<char>>) -> FnScan
    decreases n,
{
    if n == 0 || n > ls.len() {
        fn_scan_start()
    } else {
        fn_step(fn_scan(ls, (n - 1) as nat, src, uri), (n - 1) as nat, ls[n - 1], src, uri)
    }
}

/// The functions declared at the top level of `text`, in order. A declaration
/// whose parameter list spans several lines is read up to its first `)`.
/// Consecutive `//` lines at top level before a declaration become its
/// documentation.
pub open spec fn user_functions(text: Seq<char>, src: Option<Seq<char>>, uri: Option<Seq<char>>) -> Seq<FunctionView> {
    let ls = lines_of(text);
    fn_scan(ls, ls.len(), src, uri).results
}

/// Executable state of the function scan.
struct FnScanExec {
    results: Vec<FunctionSignature>,
    pending: Vec<Vec<char>>,
    brace: usize,
    multi: Option<(usize, usize, Vec<char>)>,
}

spec fn multi_view(m: Option<(usize, usize, Vec<char>)>) -> Option<(nat, nat, Seq<char>)> {
    match m {
        Some((a, b, h)) => Some((a as nat, b as nat, h@)),
        None => None,
    }
}

spec fn fn_scan_view(st: FnScanExec) -> FnScan {
    FnScan {
        results: functions_view(st.results@),
        pending: views(st.pending@),
        brace: st.brace as nat,
        multi: multi_view(st.multi),
    }
}

fn push_some_exec(rs: &mut Vec<FunctionSignature>, f: Option<FunctionSignature>)
    ensures
        functions_view(final(rs)@) == push_some(functions_view(old(rs)@), match f {
            Some(g) => Some(g@),
            None => None,
        }),
{
    if let Some(g) = f {
        let ghost old_rs = rs@;
        rs.push(g);
        assert(functions_view(rs@) =~= functions_view(old_rs).push(g@));
    }
}

fn fn_decl_step_exec(
    st: &mut FnScanExec,
    idx: usize,
    raw: &Vec<char>,
    line: &Vec<char>,
    src: &Option<String>,
    uri: &Option<String>,
)
    ensures
        fn_scan_view(*final(st)) == fn_decl_step(
            fn_scan_view(*old(st)),
            idx as nat,
            raw@,
            line@,
            opt_view(*src),
            opt_view(*uri),
        ),
        final(st).brace == old(st).brace,
{
    let open_pat = lit("(");
    let close_pat = lit(")");
    assert(open_pat@ =~= seq!['(']) by {
        reveal_strlit("(");
    }
    assert(close_pat@ =~= seq![')']) by {
        reveal_strlit(")");
    }
    let open = match find_of(line, &open_pat) {
        Some(o) => o,
        None => return,
    };
    proof {
        crate::text::lemma_find_from_facts(line@, seq!['('], 0);
    }
    let before = slice_of(line, 0, open);
    let tb = trim_of(&before);
    let ws = words_of(&tb);
    if ws.len() < 2 {
        return;
    }
    let name = slice_of(&ws[ws.len() - 1], 0, ws[ws.len() - 1].len());
    let ret = slice_of(&ws[ws.len() - 2], 0, ws[ws.len() - 2].len());
    assert(name@ =~= views(ws@)[ws.len() - 1]);
    assert(ret@ =~= views(ws@)[ws.len() - 2]);
    if !(valid_fn_name_of(&name) && !word_in_list(&name, &INVALID_NAMES) && !word_in_list(
        &ret,
        &INVALID_TYPES,
    )) {
        return;
    }
    let col = match find_of(raw, &name) {
        Some(c) => {
            proof {
                crate::text::lemma_find_from_facts(raw@, name@, 0);
            }
            crate::text::byte_pos_of(raw, c)
        },
        None => 0,
    };
    match find_of(line, &close_pat) {
        Some(ci) => {
            proof {
                crate::text::lemma_find_from_facts(line@, seq![')'], 0);
                assert(crate::text::match_at(line@, seq![')'], ci as int));
                assert(seq![')'].len() == 1);
                assert(ci < line.len());
            }
            let h = slice_of(line, 0, ci + 1);
            assert(h@ =~= line@.take(ci + 1));
            let f = header_signature_of(&h, &st.pending, src, idx, col, uri);
            push_some_exec(&mut st.results, f);
            st.pending = Vec::new();
            assert(views(st.pending@) =~= Seq::<Seq<char>>::empty());
        },
        None => {
            let l2 = slice_of(line, 0, line.len());
            assert(l2@ =~= line@);
            st.multi = Some((idx, col, l2));
        },
    }
}

fn fn_step_exec(
    st: &mut FnScanExec,
    idx: usize,
    raw: &Vec<char>,
    src: &Option<String>,
    uri: &Option<String>,
)
    requires
        old(st).brace + raw.len() <= usize::MAX,
    ensures
        fn_scan_view(*final(st)) == fn_step(
            fn_scan_view(*old(st)),
            idx as nat,
            raw@,
            opt_view(*src),
            opt_view(*uri),
        ),
        final(st).brace <= old(st).brace + raw.len(),
{
    let line = trim_of(raw);
    proof {
        crate::text::lemma_lead_facts(raw@, crate::text::ws_pred());
        crate::text::lemma_trail_facts(crate::text::trim_start(raw@), crate::text::ws_pred());
        lemma_brace_after_bound(old(st).brace as nat, line@);
    }
    assert(line@.len() <= raw@.len());
    let taken = st.multi.take();
    match taken {
        Some((sl, sc, h0)) => {
            let mut h = h0;
            let ghost h0v = h@;
            h.push(' ');
            extend(&mut h, &line);
            assert(h@ =~= h0v + seq![' '] + line@);
            let close_pat = lit(")");
            assert(close_pat@ =~= seq![')']) by {
                reveal_strlit(")");
            }
            match find_of(&h, &close_pat) {
                Some(ci) => {
                    proof {
                        crate::text::lemma_find_from_facts(h@, seq![')'], 0);
                        assert(crate::text::match_at(h@, seq![')'], ci as int));
                        assert(seq![')'].len() == 1);
                        assert(ci < h.len());
                    }
                    let hh = slice_of(&h, 0, ci + 1);
                    assert(hh@ =~= h@.take(ci + 1));
                    let f = header_signature_of(&hh, &st.pending, src, sl, sc, uri);
                    push_some_exec(&mut st.results, f);
                    st.pending = Vec::new();
                    assert(views(st.pending@) =~= Seq::<Seq<char>>::empty());
                },
                None => {
                    st.multi = Some((sl, sc, h));
                },
            }
            st.brace = brace_after_of(st.brace, &line);
            return;
        },
        None => {},
    }
    let slashes = lit("//");
    let ret_word = lit("return");
    let hash = lit("#");
    if starts_with_of(&line, &slashes) {
        if st.brace == 0 {
            let d = doc_line_of(&line);
            let ghost old_p = views(st.pending@);
            st.pending.push(d);
            assert(views(st.pending@) =~= old_p.push(d@));
        }
        return;
    }
    if line.len() == 0 {
        if st.brace == 0 {
            st.pending = Vec::new();
            assert(views(st.pending@) =~= Seq::<Seq<char>>::empty());
        }
        return;
    }
    if st.brace == 0 && !starts_with_of(&line, &ret_word) && !starts_with_of(&line, &hash) {
        fn_decl_step_exec(st, idx, raw, &line, src, uri);
    }
    st.brace = brace_after_of(st.brace, &line);
    if st.brace == 0 && st.multi.is_none() {
        st.pending = Vec::new();
        assert(views(st.pending@) =~= Seq::<Seq<char>>::empty());
    }
}

/// Parses the function declarations of GLSL source text, line by line.
pub fn scan_user_functions(text: &str, source_name: Option<&str>, file_uri: Option<&str>) -> (r: Vec<
    FunctionSignature,
>)
    ensures
        functions_view(r@) == user_functions(text@, opt_str_view(source_name), opt_str_view(file_uri)),
{
    let s = chars_of(text);
    let ls = lines_of_vec(&s);
    let src = opt_to_string(source_name);
    let uri = opt_to_string(file_uri);
    let mut st = FnScanExec { results: Vec::new(), pending: Vec::new(), brace: 0, multi: None };
    proof {
        crate::text::lemma_lines_total(s@);
        assert(functions_view(st.results@) =~= Seq::<FunctionView>::empty());
        assert(views(st.pending@) =~= Seq::<Seq<char>>::empty());
    }
    let mut i: usize = 0;
    assert(s.len() <= usize::MAX);
    while i < ls.len()
        invariant
            i <= ls.len(),
            views(ls@) == lines_of(s@),
            s@ == text@,
            s@.len() <= usize::MAX,
            crate::text::total_len(lines_of(s@)) <= s@.len(),
            st.brace <= crate::text::total_len(views(ls@).take(i as int)),
            opt_view(src) == opt_str_view(source_name),
            opt_view(uri) == opt_str_view(file_uri),
            fn_scan_view(st) == fn_scan(views(ls@), i as nat, opt_view(src), opt_view(uri)),
        decreases ls.len() - i,
    {
        proof {
            crate::text::lemma_total_len_split(views(ls@).take(i + 1), i as int);
            crate::text::lemma_total_len_split(views(ls@), i + 1);
            assert(views(ls@).take(i + 1).take(i as int) =~= views(ls@).take(i as int));
            assert(views(ls@).take(i + 1).skip(i as int) =~= seq![ls@[i as int]@]);
            assert(crate::text::total_len(seq![ls@[i as int]@]) == ls@[i as int]@.len() + crate::text::total_len(seq![ls@[i as int]@].drop_first()));
            assert(seq![ls@[i as int]@].drop_first().len() == 0);
            assert(views(ls@)[i as int] == ls@[i as int]@);
            assert(crate::text::total_len(views(ls@).take(i + 1)) == crate::text::total_len(views(ls@).take(i as int)) + ls@[i as int]@.len());
            assert(crate::text::total_len(views(ls@).take(i + 1)) <= crate::text::total_len(views(ls@)));
            assert(s@.len() <= usize::MAX);
        }
        fn_step_exec(&mut st, i, &ls[i], &src, &uri);
        i = i + 1;
    }
    st.results
}

} // verus!
