//! User variables, constants, macros, structs and interface blocks declared
//! in GLSL source.
use vstd::prelude::*;
use crate::lexical::{in_list, word_in_list};
use crate::symbols::{
    doc_line, doc_line_of, join_of, lit, opt_clone, opt_str_view, opt_to_string, opt_view,
    INVALID_NAMES, INVALID_TYPES,
};
use crate::text::{
    char_is_alphabetic, char_is_alphanumeric, char_is_whitespace, chars_of, ends_with,
    ends_with_of, eq, find, find_of, alphabetic, byte_col, byte_pos_of, is_ident_char, is_ws, join, lead, lemma_lead,
    lines_of, lines_of_vec, rfind, rfind_of, slice_of, split_char, split_char_of, starts_with,
    starts_with_of, string_of, trail, trim, trim_of, trim_start, trim_start_of, views, words,
    words_of, contains, contains_of,
};

verus! {

/// Storage, interpolation, memory and precision qualifiers.
pub const STORAGE_QUALIFIERS: [&'static str; 23] = [
    "in",
    "out",
    "inout",
    "uniform",
    "buffer",
    "attribute",
    "varying",
    "const",
    "shared",
    "flat",
    "smooth",
    "noperspective",
    "centroid",
    "sample",
    "patch",
    "coherent",
    "readonly",
    "writeonly",
    "volatile",
    "restrict",
    "highp",
    "mediump",
    "lowp",
];

/// Built-in GLSL types that may start a declaration.
pub const KNOWN_BASE_TYPES: [&'static str; 107] = [
    "float",
    "double",
    "int",
    "uint",
    "bool",
    "vec2",
    "vec3",
    "vec4",
    "dvec2",
    "dvec3",
    "dvec4",
    "bvec2",
    "bvec3",
    "bvec4",
    "ivec2",
    "ivec3",
    "ivec4",
    "uvec2",
    "uvec3",
    "uvec4",
    "mat2",
    "mat3",
    "mat4",
    "mat2x2",
    "mat2x3",
    "mat2x4",
    "mat3x2",
    "mat3x3",
    "mat3x4",
    "mat4x2",
    "mat4x3",
    "mat4x4",
    "dmat2",
    "dmat3",
    "dmat4",
    "dmat2x2",
    "dmat2x3",
    "dmat2x4",
    "dmat3x2",
    "dmat3x3",
    "dmat3x4",
    "dmat4x2",
    "dmat4x3",
    "dmat4x4",
    "sampler1D",
    "sampler2D",
    "sampler3D",
    "samplerCube",
    "sampler2DShadow",
    "samplerCubeShadow",
    "sampler2DArray",
    "sampler2DArrayShadow",
    "sampler1DArray",
    "sampler1DArrayShadow",
    "samplerCubeArray",
    "samplerCubeArrayShadow",
    "sampler2DMS",
    "sampler2DMSArray",
    "samplerBuffer",
    "isampler1D",
    "isampler2D",
    "isampler3D",
    "isamplerCube",
    "isampler2DArray",
    "isampler1DArray",
    "isamplerCubeArray",
    "isampler2DMS",
    "isampler2DMSArray",
    "isamplerBuffer",
    "usampler1D",
    "usampler2D",
    "usampler3D",
    "usamplerCube",
    "usampler2DArray",
    "usampler1DArray",
    "usamplerCubeArray",
    "usampler2DMS",
    "usampler2DMSArray",
    "usamplerBuffer",
    "image1D",
    "image2D",
    "image3D",
    "imageCube",
    "image2DArray",
    "imageCubeArray",
    "image2DMS",
    "image2DMSArray",
    "imageBuffer",
    "iimage1D",
    "iimage2D",
    "iimage3D",
    "iimageCube",
    "iimage2DArray",
    "iimageCubeArray",
    "iimage2DMS",
    "iimage2DMSArray",
    "iimageBuffer",
    "uimage1D",
    "uimage2D",
    "uimage3D",
    "uimageCube",
    "uimage2DArray",
    "uimageCubeArray",
    "uimage2DMS",
    "uimage2DMSArray",
    "uimageBuffer",
    "atomic_uint",
];

/// A user variable, constant, macro, struct or interface block found in GLSL source.
#[derive(Debug, Clone, PartialEq)]
pub struct VariableSymbol {
    pub name: String,
    pub var_type: String,
    pub qualifier: String,
    pub doc: Option<String>,
    pub source: Option<String>,
    pub line: usize,
    pub col: usize,
    pub file_uri: Option<String>,
}

/// Mathematical value of a [`VariableSymbol`].
pub struct VariableView {
    pub name: Seq<char>,
    pub var_type: Seq<char>,
    pub qualifier: Seq<char>,
    pub doc: Option<Seq<char>>,
    pub source: Option<Seq<char>>,
    pub line: nat,
    pub col: nat,
    pub file_uri: Option<Seq<char>>,
}

impl View for VariableSymbol {
    type V = VariableView;

    open spec fn view(&self) -> VariableView {
        VariableView {
            name: self.name@,
            var_type: self.var_type@,
            qualifier: self.qualifier@,
            doc: opt_view(self.doc),
            source: opt_view(self.source),
            line: self.line as nat,
            col: self.col as nat,
            file_uri: opt_view(self.file_uri),
        }
    }
}

pub open spec fn variables_view(v: Seq<VariableSymbol>) -> Seq<VariableView> {
    v.map_values(|x: VariableSymbol| x@)
}

/// A valid GLSL identifier: a letter or `_` followed by letters, digits and `_`.
pub open spec fn valid_identifier(w: Seq<char>) -> bool {
    w.len() > 0 && (alphabetic(w[0]) || w[0] == '_') && forall|i: int|
        1 <= i < w.len() ==> is_ident_char(#[trigger] w[i])
}

pub fn valid_identifier_of(w: &Vec<char>) -> (r: bool)
    ensures
        r == valid_identifier(w@),
{
    if w.len() == 0 {
        return false;
    }
    if !(char_is_alphabetic(w[0]) || w[0] == '_') {
        return false;
    }
    let mut i: usize = 1;
    while i < w.len()
        invariant
            1 <= i <= w.len(),
            forall|j: int| 1 <= j < i ==> is_ident_char(#[trigger] w@[j]),
        decreases w.len() - i,
    {
        if !(char_is_alphanumeric(w[i]) || w[i] == '_') {
            return false;
        }
        i = i + 1;
    }
    true
}

/// Whether `s` is a valid GLSL identifier.
pub fn is_valid_identifier(s: &str) -> (r: bool)
    ensures
        r == valid_identifier(s@),
        r == (s@.len() > 0 && (alphabetic(s@[0]) || s@[0] == '_') && forall|i: int|
            0 <= i < s@.len() ==> #[trigger] is_ident_char(s@[i])),
{
    let v = chars_of(s);
    let r = valid_identifier_of(&v);
    proof {
        if s@.len() > 0 && (alphabetic(s@[0]) || s@[0] == '_') {
            assert(is_ident_char(s@[0]));
        }
    }
    r
}

/// Characters at which a piece of text is cut (see [`until`]).
pub open spec fn stop_pred(kind: u8) -> spec_fn(char) -> bool {
    |c: char|
        if kind == 0 {
            is_ws(c) || c == '{'
        } else if kind == 1 {
            is_ws(c) || c == '['
        } else if kind == 2 {
            c == '[' || c == ';' || c == '=' || is_ws(c)
        } else if kind == 3 {
            c == ';'
        } else if kind == 4 {
            c == ';' || c == '='
        } else {
            c == '('
        }
}

pub open spec fn go_pred(kind: u8) -> spec_fn(char) -> bool {
    |c: char| !stop_pred(kind)(c)
}

/// The text before the first character of kind `kind`, as
/// `s.split(..).next()` gives it.
pub open spec fn until(s: Seq<char>, kind: u8) -> Seq<char> {
    s.take(lead(s, go_pred(kind)) as int)
}

fn is_stop(c: char, kind: u8) -> (r: bool)
    ensures
        r == stop_pred(kind)(c),
{
    if kind == 0 {
        char_is_whitespace(c) || c == '{'
    } else if kind == 1 {
        char_is_whitespace(c) || c == '['
    } else if kind == 2 {
        c == '[' || c == ';' || c == '=' || char_is_whitespace(c)
    } else if kind == 3 {
        c == ';'
    } else if kind == 4 {
        c == ';' || c == '='
    } else {
        c == '('
    }
}

pub fn until_of(s: &Vec<char>, kind: u8) -> (r: Vec<char>)
    ensures
        r@ == until(s@, kind),
{
    let mut i: usize = 0;
    while i < s.len() && !is_stop(s[i], kind)
        invariant
            i <= s.len(),
            forall|j: int| 0 <= j < i ==> #[trigger] go_pred(kind)(s@[j]),
        decreases s.len() - i,
    {
        i = i + 1;
    }
    proof {
        lemma_lead(s@, go_pred(kind), i as int);
    }
    slice_of(s, 0, i)
}

pub open spec fn punct_pred() -> spec_fn(char) -> bool {
    |c: char| c == ';' || c == ',' || c == '(' || c == ')'
}

/// A token with `;`, `,`, `(` and `)` removed from both ends.
pub open spec fn clean_token(t: Seq<char>) -> Seq<char> {
    let a = t.skip(lead(t, punct_pred()) as int);
    a.take(a.len() - trail(a, punct_pred()))
}

fn clean_token_of(t: &Vec<char>) -> (r: Vec<char>)
    ensures
        r@ == clean_token(t@),
{
    let mut i: usize = 0;
    while i < t.len() && (t[i] == ';' || t[i] == ',' || t[i] == '(' || t[i] == ')')
        invariant
            i <= t.len(),
            forall|j: int| 0 <= j < i ==> #[trigger] punct_pred()(t@[j]),
        decreases t.len() - i,
    {
        i = i + 1;
    }
    proof {
        lemma_lead(t@, punct_pred(), i as int);
    }
    let a = slice_of(t, i, t.len());
    let mut k: usize = 0;
    while k < a.len() && (a[a.len() - 1 - k] == ';' || a[a.len() - 1 - k] == ',' || a[a.len() - 1
        - k] == '(' || a[a.len() - 1 - k] == ')')
        invariant
            k <= a.len(),
            forall|j: int| a.len() - k <= j < a.len() ==> #[trigger] punct_pred()(a@[j]),
        decreases a.len() - k,
    {
        k = k + 1;
    }
    proof {
        crate::text::lemma_trail(a@, punct_pred(), k as int);
    }
    slice_of(&a, 0, a.len() - k)
}

/// Number of occurrences of `c` in `s`.
pub open spec fn count_char(s: Seq<char>, c: char) -> nat
    decreases s.len(),
{
    if s.len() == 0 {
        0
    } else {
        (if s[0] == c { 1nat } else { 0nat }) + count_char(s.drop_first(), c)
    }
}

fn count_char_of(s: &Vec<char>, c: char) -> (r: usize)
    ensures
        r == count_char(s@, c),
        r <= s.len(),
{
    let mut i: usize = 0;
    let mut n: usize = 0;
    assert(s@.skip(0) =~= s@);
    while i < s.len()
        invariant
            i <= s.len(),
            n <= i,
            count_char(s@, c) == n + count_char(s@.skip(i as int), c),
        decreases s.len() - i,
    {
        assert(s@.skip(i as int).drop_first() =~= s@.skip(i + 1));
        if s[i] == c {
            n = n + 1;
        }
        i = i + 1;
    }
    assert(s@.skip(i as int).len() == 0);
    n
}

/// `before` is empty or ends with whitespace.
pub open spec fn boundary_before(before: Seq<char>) -> bool {
    before.len() == 0 || is_ws(before.last())
}

/// Position of the first occurrence of `w` in `raw`, or 0.
pub open spec fn col_of(raw: Seq<char>, w: Seq<char>) -> nat {
    match find(raw, w) {
        Some(c) => byte_col(raw, c),
        None => 0,
    }
}

/// Position of the last occurrence of `w` in `raw`, or 0.
pub open spec fn rcol_of(raw: Seq<char>, w: Seq<char>) -> nat {
    match rfind(raw, w) {
        Some(c) => byte_col(raw, c),
        None => 0,
    }
}

fn col_of_exec(raw: &Vec<char>, w: &Vec<char>) -> (r: usize)
    ensures
        r == col_of(raw@, w@),
{
    match find_of(raw, w) {
        Some(c) => {
            proof {
                crate::text::lemma_find_from_facts(raw@, w@, 0);
            }
            byte_pos_of(raw, c)
        },
        None => 0,
    }
}

fn rcol_of_exec(raw: &Vec<char>, w: &Vec<char>) -> (r: usize)
    ensures
        r == rcol_of(raw@, w@),
{
    match rfind_of(raw, w) {
        Some(c) => {
            proof {
                crate::text::lemma_rfind_to_facts(raw@, w@, raw@.len() - w@.len());
            }
            byte_pos_of(raw, c)
        },
        None => 0,
    }
}

/// State of the line-by-line scan for variable declarations.
pub struct VarScan {
    pub results: Seq<VariableView>,
    pub pending: Seq<Seq<char>>,
    pub custom: Seq<Seq<char>>,
    pub brace: nat,
    pub block_type: Option<Seq<char>>,
    pub block_qual: Seq<char>,
}

pub open spec fn var_scan_start() -> VarScan {
    VarScan {
        results: seq![],
        pending: seq![],
        custom: seq![],
        brace: 0,
        block_type: None,
        block_qual: "uniform"@,
    }
}

/// The symbol record for a declaration found on line `idx`.
pub open spec fn mk_var(
    name: Seq<char>,
    ty: Seq<char>,
    qual: Seq<char>,
    doc: Option<Seq<char>>,
    src: Option<Seq<char>>,
    idx: nat,
    col: nat,
    uri: Option<Seq<char>>,
) -> VariableView {
    VariableView { name, var_type: ty, qualifier: qual, doc, source: src, line: idx, col, file_uri: uri }
}

/// `#define NAME ...`: the macro name (up to any `(`) is recorded.
pub open spec fn define_step(
    st: VarScan,
    idx: nat,
    raw: Seq<char>,
    rest: Seq<char>,
    src: Option<Seq<char>>,
    uri: Option<Seq<char>>,
) -> VarScan {
    let toks = words(rest);
    let st1 = if toks.len() > 0 && valid_identifier(until(toks[0], 5)) {
        let name = until(toks[0], 5);
        VarScan {
            results: st.results.push(
                mk_var(
                    name,
                    "macro"@,
                    "#define"@,
                    crate::symbols::doc_of(st.pending, " "@),
                    src,
                    idx,
                    col_of(raw, name),
                    uri,
                ),
            ),
            ..st
        }
    } else {
        st
    };
    VarScan { pending: seq![], ..st1 }
}

/// `struct Name ...`: the struct name becomes a known type and a symbol.
pub open spec fn struct_step(
    st: VarScan,
    idx: nat,
    raw: Seq<char>,
    line: Seq<char>,
    src: Option<Seq<char>>,
    uri: Option<Seq<char>>,
) -> VarScan {
    match find(line, "struct"@) {
        None => st,
        Some(si) => {
            let before = line.take(si);
            let after = trim_start(line.skip(si + 6));
            if boundary_before(before) {
                let name = until(after, 0);
                if valid_identifier(name) && !in_list(name, INVALID_NAMES) {
                    VarScan {
                        custom: st.custom.push(name),
                        results: st.results.push(
                            mk_var(
                                name,
                                "struct"@,
                                "struct"@,
                                crate::symbols::doc_of(st.pending, " "@),
                                src,
                                idx,
                                col_of(raw, name),
                                uri,
                            ),
                        ),
                        ..st
                    }
                } else {
                    st
                }
            } else {
                st
            }
        },
    }
}

/// The text after a `layout(...)` qualifier, or the whole line without one.
pub open spec fn after_layout(line: Seq<char>) -> Seq<char> {
    match find(line, "layout"@) {
        Some(ls) => match find(line.skip(ls), ")"@) {
            Some(pc) => trim(line.skip(ls + pc + 1)),
            None => line,
        },
        None => line,
    }
}

/// [`after_layout`] without a trailing `//` comment.
pub open spec fn clean_line(line: Seq<char>) -> Seq<char> {
    let a = after_layout(line);
    match find(a, "//"@) {
        Some(ci) => trim(a.take(ci)),
        None => a,
    }
}

/// `uniform Name {` or `buffer Name {` opens an interface block.
pub open spec fn block_step(
    st: VarScan,
    idx: nat,
    raw: Seq<char>,
    al: Seq<char>,
    qual: Seq<char>,
    src: Option<Seq<char>>,
    uri: Option<Seq<char>>,
) -> VarScan {
    match find(al, qual) {
        None => st,
        Some(pos) => {
            if boundary_before(al.take(pos)) {
                let name = until(trim_start(al.skip(pos + qual.len())), 0);
                if valid_identifier(name) && !in_list(name, INVALID_NAMES) {
                    VarScan {
                        block_type: Some(name),
                        block_qual: qual,
                        custom: st.custom.push(name),
                        results: st.results.push(
                            mk_var(
                                name,
                                qual,
                                qual,
                                crate::symbols::doc_of(st.pending, " "@),
                                src,
                                idx,
                                col_of(raw, name),
                                uri,
                            ),
                        ),
                        ..st
                    }
                } else {
                    st
                }
            } else {
                st
            }
        },
    }
}

/// `} instanceName;` closes a block and may name its instance.
pub open spec fn instance_step(
    st: VarScan,
    idx: nat,
    raw: Seq<char>,
    clean: Seq<char>,
    src: Option<Seq<char>>,
    uri: Option<Seq<char>>,
) -> VarScan {
    match find(clean, "}"@) {
        None => st,
        Some(bp) => {
            let ab = trim(clean.skip(bp + 1));
            let st1 = if contains(ab, ";"@) {
                let name = until(trim(until(ab, 3)), 1);
                if valid_identifier(name) && !in_list(name, INVALID_NAMES) {
                    let ty = match st.block_type {
                        Some(t) => t,
                        None => "block"@,
                    };
                    let q = if st.block_qual.len() == 0 {
                        "uniform"@
                    } else {
                        st.block_qual
                    };
                    VarScan {
                        results: st.results.push(mk_var(name, ty, q, None, src, idx, rcol_of(raw, name), uri)),
                        ..st
                    }
                } else {
                    st
                }
            } else {
                st
            };
            VarScan { block_type: None, ..st1 }
        },
    }
}

/// The qualifiers and the type at the head of a declaration: qualifiers are
/// collected (joined by spaces) up to the first token that is a known type, a
/// declared struct or block name, or, after a qualifier, any identifier.
pub open spec fn decl_head(toks: Seq<Seq<char>>, i: int, qual: Seq<char>, custom: Seq<Seq<char>>) -> Option<
    (Seq<char>, Seq<char>, int),
>
    decreases toks.len() - i,
{
    if i < 0 || i >= toks.len() {
        None
    } else {
        let t = clean_token(toks[i]);
        if in_list(t, STORAGE_QUALIFIERS) {
            decl_head(
                toks,
                i + 1,
                if qual.len() == 0 {
                    t
                } else {
                    qual + " "@ + t
                },
                custom,
            )
        } else if in_list(t, KNOWN_BASE_TYPES) || custom.contains(t) || (qual.len() > 0
            && valid_identifier(t)) {
            Some((qual, t, i + 1))
        } else if qual.len() == 0 && i == 0 {
            None
        } else {
            decl_head(toks, i + 1, qual, custom)
        }
    }
}

/// The names declared by the comma-separated `parts`, each cut at `[`, `;`,
/// `=` or whitespace; invalid names and keywords are left out.
pub open spec fn declared_vars(
    parts: Seq<Seq<char>>,
    ty: Seq<char>,
    qual: Seq<char>,
    doc: Option<Seq<char>>,
    src: Option<Seq<char>>,
    idx: nat,
    raw: Seq<char>,
    uri: Option<Seq<char>>,
) -> Seq<VariableView>
    decreases parts.len(),
{
    if parts.len() == 0 {
        seq![]
    } else {
        let prev = declared_vars(parts.drop_last(), ty, qual, doc, src, idx, raw, uri);
        let name = until(trim(parts.last()), 2);
        if valid_identifier(name) && !in_list(name, INVALID_NAMES) && !in_list(name, INVALID_TYPES) {
            prev.push(mk_var(name, ty, qual, doc, src, idx, col_of(raw, name), uri))
        } else {
            prev
        }
    }
}

/// The variables declared by the statement `stmt` (text before `;` or `=`).
pub open spec fn statement_vars(
    st: VarScan,
    idx: nat,
    raw: Seq<char>,
    stmt: Seq<char>,
    src: Option<Seq<char>>,
    uri: Option<Seq<char>>,
) -> Seq<VariableView> {
    let toks = words(stmt);
    match decl_head(toks, 0, seq![], st.custom) {
        None => seq![],
        Some((q, ty, start)) => if ty.len() == 0 || start >= toks.len() {
            seq![]
        } else {
            let q2 = if q.len() == 0 {
                "var"@
            } else {
                q
            };
            let rem = join(toks.skip(start), " "@);
            declared_vars(
                split_char(rem, ','),
                ty,
                q2,
                crate::symbols::doc_of(st.pending, " "@),
                src,
                idx,
                raw,
                uri,
            )
        },
    }
}

/// Whether the cleaned line holds a declaration statement to parse, and the statement.
pub open spec fn decl_statement(clean: Seq<char>) -> Option<Seq<char>> {
    if !starts_with(clean, "#"@) && (contains(clean, ";"@) || contains(clean, "="@)) {
        let stmt = trim(until(clean, 4));
        let is_fn = match find(stmt, "("@) {
            Some(p) => p > 0,
            None => false,
        };
        if !is_fn && stmt.len() > 0 {
            Some(stmt)
        } else {
            None
        }
    } else {
        None
    }
}

/// One line of the scan for variable declarations.
pub open spec fn var_step(
    st: VarScan,
    idx: nat,
    raw: Seq<char>,
    src: Option<Seq<char>>,
    uri: Option<Seq<char>>,
) -> VarScan {
    let line = trim(raw);
    if starts_with(line, "//"@) {
        let d = doc_line(line);
        if d.len() > 0 {
            VarScan { pending: st.pending.push(d), ..st }
        } else {
            st
        }
    } else if line.len() == 0 {
        if st.brace == 0 {
            VarScan { pending: seq![], ..st }
        } else {
            st
        }
    } else if starts_with(line, "#define"@) {
        define_step(st, idx, raw, line.skip(7), src, uri)
    } else {
        let st1 = struct_step(st, idx, raw, line, src, uri);
        let al = after_layout(line);
        let st2 = if contains(al, "{"@) {
            block_step(block_step(st1, idx, raw, al, "uniform"@, src, uri), idx, raw, al, "buffer"@, src, uri)
        } else {
            st1
        };
        let clean = clean_line(line);
        let st3 = instance_step(st2, idx, raw, clean, src, uri);
        let st4 = match decl_statement(clean) {
            Some(stmt) => VarScan {
                results: st3.results + statement_vars(st3, idx, raw, stmt, src, uri),
                ..st3
            },
            None => st3,
        };
        let b = st4.brace + count_char(line, '{');
        let st5 = VarScan {
            brace: if b >= count_char(line, '}') {
                (b - count_char(line, '}')) as nat
            } else {
                0
            },
            ..st4
        };
        if ends_with(line, ";"@) || ends_with(line, "}"@) {
            VarScan { pending: seq![], ..st5 }
        } else {
            st5
        }
    }
}

/// The scan state after the first `n` lines.
pub open spec fn var_scan(ls: Seq<Seq<char>>, n: nat, src: Option<Seq<char>>, uri: Option<Seq<char>>) -> VarScan
    decreases n,
{
    if n == 0 || n > ls.len() {
        var_scan_start()
    } else {
        var_step(var_scan(ls, (n - 1) as nat, src, uri), (n - 1) as nat, ls[n - 1], src, uri)
    }
}

/// The variables, constants, macros, structs and interface blocks declared
/// in `text`, in order of appearance.
pub open spec fn user_variables(text: Seq<char>, src: Option<Seq<char>>, uri: Option<Seq<char>>) -> Seq<VariableView> {
    let ls = lines_of(text);
    var_scan(ls, ls.len(), src, uri).results
}

/// Executable state of the variable scan.
struct VarScanExec {
    results: Vec<VariableSymbol>,
    pending: Vec<Vec<char>>,
    custom: Vec<Vec<char>>,
    brace: usize,
    block_type: Option<Vec<char>>,
    block_qual: Vec<char>,
}

spec fn optv_view(o: Option<Vec<char>>) -> Option<Seq<char>> {
    match o {
        Some(v) => Some(v@),
        None => None,
    }
}

spec fn var_scan_view(st: VarScanExec) -> VarScan {
    VarScan {
        results: variables_view(st.results@),
        pending: views(st.pending@),
        custom: views(st.custom@),
        brace: st.brace as nat,
        block_type: optv_view(st.block_type),
        block_qual: st.block_qual@,
    }
}

fn doc_of_exec(pending: &Vec<Vec<char>>, sep: &Vec<char>) -> (r: Option<String>)
    ensures
        opt_view(r) == crate::symbols::doc_of(views(pending@), sep@),
{
    if pending.len() == 0 {
        None
    } else {
        let d = join_of(pending, sep);
        Some(string_of(&d))
    }
}

fn mk_var_exec(
    name: &Vec<char>,
    ty: &Vec<char>,
    qual: &Vec<char>,
    doc: Option<String>,
    src: &Option<String>,
    idx: usize,
    col: usize,
    uri: &Option<String>,
) -> (r: VariableSymbol)
    ensures
        r@ == mk_var(name@, ty@, qual@, opt_view(doc), opt_view(*src), idx as nat, col as nat, opt_view(*uri)),
{
    VariableSymbol {
        name: string_of(name),
        var_type: string_of(ty),
        qualifier: string_of(qual),
        doc,
        source: opt_clone(src),
        line: idx,
        col,
        file_uri: opt_clone(uri),
    }
}

fn push_var(rs: &mut Vec<VariableSymbol>, v: VariableSymbol)
    ensures
        variables_view(final(rs)@) == variables_view(old(rs)@).push(v@),
{
    let ghost old_rs = rs@;
    rs.push(v);
    assert(variables_view(rs@) =~= variables_view(old_rs).push(v@));
}

fn push_vec(rs: &mut Vec<Vec<char>>, v: Vec<char>)
    ensures
        views(final(rs)@) == views(old(rs)@).push(v@),
{
    let ghost old_rs = rs@;
    rs.push(v);
    assert(views(rs@) =~= views(old_rs).push(v@));
}

fn copy_vec(v: &Vec<char>) -> (r: Vec<char>)
    ensures
        r@ == v@,
{
    slice_of(v, 0, v.len())
}

fn define_step_exec(
    st: &mut VarScanExec,
    idx: usize,
    raw: &Vec<char>,
    rest: &Vec<char>,
    src: &Option<String>,
    uri: &Option<String>,
)
    ensures
        var_scan_view(*final(st)) == define_step(var_scan_view(*old(st)), idx as nat, raw@, rest@, opt_view(*src), opt_view(*uri)),
        final(st).brace == old(st).brace,
{
    let toks = words_of(rest);
    if toks.len() > 0 {
        let name = until_of(&toks[0], 5);
        assert(views(toks@)[0] == toks@[0]@);
        if valid_identifier_of(&name) {
            let space = lit(" ");
            let doc = doc_of_exec(&st.pending, &space);
            let col = col_of_exec(raw, &name);
            let ty = lit("macro");
            let q = lit("#define");
            let v = mk_var_exec(&name, &ty, &q, doc, src, idx, col, uri);
            push_var(&mut st.results, v);
        }
    }
    st.pending = Vec::new();
    assert(views(st.pending@) =~= Seq::<Seq<char>>::empty());
}

fn struct_step_exec(
    st: &mut VarScanExec,
    idx: usize,
    raw: &Vec<char>,
    line: &Vec<char>,
    src: &Option<String>,
    uri: &Option<String>,
)
    ensures
        var_scan_view(*final(st)) == struct_step(var_scan_view(*old(st)), idx as nat, raw@, line@, opt_view(*src), opt_view(*uri)),
        final(st).brace == old(st).brace,
{
    let kw = lit("struct");
    let si = match find_of(line, &kw) {
        Some(i) => i,
        None => return,
    };
    proof {
        reveal_strlit("struct");
        crate::text::lemma_find_from_facts(line@, kw@, 0);
        assert(crate::text::match_at(line@, kw@, si as int));
        assert(kw@.len() == 6);
        assert(si + 6 <= line.len());
    }
    let before = slice_of(line, 0, si);
    let rest = slice_of(line, si + 6, line.len());
    let after = trim_start_of(&rest);
    assert(rest@ =~= line@.skip(si + 6));
    if !(before.len() == 0 || char_is_whitespace(before[before.len() - 1])) {
        return;
    }
    let name = until_of(&after, 0);
    if valid_identifier_of(&name) && !word_in_list(&name, &INVALID_NAMES) {
        let space = lit(" ");
        let doc = doc_of_exec(&st.pending, &space);
        let col = col_of_exec(raw, &name);
        let ty = lit("struct");
        let v = mk_var_exec(&name, &ty, &ty, doc, src, idx, col, uri);
        push_vec(&mut st.custom, copy_vec(&name));
        push_var(&mut st.results, v);
    }
}

fn after_layout_of(line: &Vec<char>) -> (r: Vec<char>)
    ensures
        r@ == after_layout(line@),
{
    let kw = lit("layout");
    let close = lit(")");
    match find_of(line, &kw) {
        Some(ls) => {
            proof {
                crate::text::lemma_find_from_facts(line@, kw@, 0);
            }
            let rest = slice_of(line, ls, line.len());
            assert(rest@ =~= line@.skip(ls as int));
            match find_of(&rest, &close) {
                Some(pc) => {
                    proof {
                        reveal_strlit(")");
                        crate::text::lemma_find_from_facts(rest@, close@, 0);
                        assert(crate::text::match_at(rest@, close@, pc as int));
                    }
                    let tail = slice_of(line, ls + pc + 1, line.len());
                    assert(tail@ =~= line@.skip(ls + pc + 1));
                    trim_of(&tail)
                },
                None => copy_vec(line),
            }
        },
        None => copy_vec(line),
    }
}

fn clean_line_of(line: &Vec<char>) -> (r: Vec<char>)
    ensures
        r@ == clean_line(line@),
{
    let a = after_layout_of(line);
    let slashes = lit("//");
    match find_of(&a, &slashes) {
        Some(ci) => {
            proof {
                crate::text::lemma_find_from_facts(a@, slashes@, 0);
            }
            let h = slice_of(&a, 0, ci);
            trim_of(&h)
        },
        None => a,
    }
}

fn block_step_exec(
    st: &mut VarScanExec,
    idx: usize,
    raw: &Vec<char>,
    al: &Vec<char>,
    qual: &Vec<char>,
    src: &Option<String>,
    uri: &Option<String>,
)
    ensures
        var_scan_view(*final(st)) == block_step(var_scan_view(*old(st)), idx as nat, raw@, al@, qual@, opt_view(*src), opt_view(*uri)),
        final(st).brace == old(st).brace,
{
    let pos = match find_of(al, qual) {
        Some(p) => p,
        None => return,
    };
    proof {
        crate::text::lemma_find_from_facts(al@, qual@, 0);
        assert(crate::text::match_at(al@, qual@, pos as int));
        assert(pos + qual.len() <= al.len());
    }
    if !(pos == 0 || char_is_whitespace(al[pos - 1])) {
        return;
    }
    let rest = slice_of(al, pos + qual.len(), al.len());
    assert(rest@ =~= al@.skip(pos + qual@.len()));
    let after = trim_start_of(&rest);
    let name = until_of(&after, 0);
    if valid_identifier_of(&name) && !word_in_list(&name, &INVALID_NAMES) {
        let space = lit(" ");
        let doc = doc_of_exec(&st.pending, &space);
        let col = col_of_exec(raw, &name);
        let v = mk_var_exec(&name, qual, qual, doc, src, idx, col, uri);
        st.block_type = Some(copy_vec(&name));
        st.block_qual = copy_vec(qual);
        push_vec(&mut st.custom, copy_vec(&name));
        push_var(&mut st.results, v);
    }
}

fn instance_step_exec(
    st: &mut VarScanExec,
    idx: usize,
    raw: &Vec<char>,
    clean: &Vec<char>,
    src: &Option<String>,
    uri: &Option<String>,
)
    ensures
        var_scan_view(*final(st)) == instance_step(var_scan_view(*old(st)), idx as nat, raw@, clean@, opt_view(*src), opt_view(*uri)),
        final(st).brace == old(st).brace,
{
    let rb = lit("}");
    let bp = match find_of(clean, &rb) {
        Some(b) => b,
        None => return,
    };
    proof {
        reveal_strlit("}");
        crate::text::lemma_find_from_facts(clean@, rb@, 0);
        assert(crate::text::match_at(clean@, rb@, bp as int));
        assert(rb@.len() == 1);
        assert(bp + 1 <= clean.len());
    }
    let rest = slice_of(clean, bp + 1, clean.len());
    assert(rest@ =~= clean@.skip(bp + 1));
    let ab = trim_of(&rest);
    let semi = lit(";");
    if contains_of(&ab, &semi) {
        let ip0 = until_of(&ab, 3);
        let ip = trim_of(&ip0);
        let name = until_of(&ip, 1);
        if valid_identifier_of(&name) && !word_in_list(&name, &INVALID_NAMES) {
            let ty = match &st.block_type {
                Some(t) => copy_vec(t),
                None => lit("block"),
            };
            let q = if st.block_qual.len() == 0 {
                lit("uniform")
            } else {
                copy_vec(&st.block_qual)
            };
            let col = rcol_of_exec(raw, &name);
            let v = mk_var_exec(&name, &ty, &q, None, src, idx, col, uri);
            push_var(&mut st.results, v);
        }
    }
    st.block_type = None;
}

fn decl_head_exec(toks: &Vec<Vec<char>>, custom: &Vec<Vec<char>>) -> (r: Option<(Vec<char>, Vec<char>, usize)>)
    ensures
        match decl_head(views(toks@), 0, seq![], views(custom@)) {
            None => r is None,
            Some((q, t, k)) => r matches Some((q2, t2, k2)) && q2@ == q && t2@ == t && k2 == k,
        },
{
    let mut qual: Vec<char> = Vec::new();
    let mut i: usize = 0;
    while i < toks.len()
        invariant
            i <= toks.len(),
            i == 0 ==> qual@.len() == 0,
            decl_head(views(toks@), 0, seq![], views(custom@)) == decl_head(views(toks@), i as int, qual@, views(custom@)),
        decreases toks.len() - i,
    {
        let t = clean_token_of(&toks[i]);
        assert(views(toks@)[i as int] == toks@[i as int]@);
        if word_in_list(&t, &STORAGE_QUALIFIERS) {
            if qual.len() == 0 {
                qual = t;
            } else {
                let ghost q0 = qual@;
                qual.push(' ');
                extend_vec(&mut qual, &t);
                proof {
                    reveal_strlit(" ");
                }
                assert(qual@ =~= q0 + " "@ + t@);
            }
        } else {
            let mut in_custom = false;
            let mut k: usize = 0;
            while k < custom.len()
                invariant
                    k <= custom.len(),
                    in_custom == views(custom@).take(k as int).contains(t@),
                decreases custom.len() - k,
            {
                assert(views(custom@).take(k + 1) =~= views(custom@).take(k as int).push(custom@[k as int]@));
                proof {
                    crate::text::lemma_contains_push(views(custom@).take(k as int), custom@[k as int]@, t@);
                }
                if eq(&custom[k], &t) {
                    in_custom = true;
                }
                k = k + 1;
            }
            assert(views(custom@).take(custom.len() as int) =~= views(custom@));
            if word_in_list(&t, &KNOWN_BASE_TYPES) || in_custom || (qual.len() > 0 && valid_identifier_of(&t)) {
                return Some((qual, t, i + 1));
            } else if qual.len() == 0 && i == 0 {
                return None;
            }
        }
        i = i + 1;
    }
    None
}

fn extend_vec(v: &mut Vec<char>, w: &Vec<char>)
    ensures
        final(v)@ == old(v)@ + w@,
{
    crate::text::extend(v, w)
}

fn statement_vars_exec(
    st: &mut VarScanExec,
    idx: usize,
    raw: &Vec<char>,
    stmt: &Vec<char>,
    src: &Option<String>,
    uri: &Option<String>,
)
    ensures
        var_scan_view(*final(st)) == (VarScan {
            results: var_scan_view(*old(st)).results + statement_vars(var_scan_view(*old(st)), idx as nat, raw@, stmt@, opt_view(*src), opt_view(*uri)),
            ..var_scan_view(*old(st))
        }),
        final(st).brace == old(st).brace,
{
    let ghost st0 = var_scan_view(*st);
    let toks = words_of(stmt);
    let (q, ty, start) = match decl_head_exec(&toks, &st.custom) {
        Some(h) => h,
        None => {
            assert(var_scan_view(*st).results =~= var_scan_view(*st).results + Seq::<VariableView>::empty());
            return;
        },
    };
    if ty.len() == 0 || start >= toks.len() {
        assert(var_scan_view(*st).results =~= var_scan_view(*st).results + Seq::<VariableView>::empty());
        return;
    }
    let q2 = if q.len() == 0 {
        lit("var")
    } else {
        q
    };
    let mut rest_toks: Vec<Vec<char>> = Vec::new();
    let mut k = start;
    assert(views(rest_toks@) =~= views(toks@).skip(start as int).take(0));
    while k < toks.len()
        invariant
            start <= k <= toks.len(),
            views(rest_toks@) == views(toks@).skip(start as int).take(k - start),
        decreases toks.len() - k,
    {
        let ghost r0 = views(rest_toks@);
        rest_toks.push(copy_vec(&toks[k]));
        assert(views(rest_toks@) =~= r0.push(toks@[k as int]@));
        assert(views(toks@).skip(start as int).take(k + 1 - start) =~= views(toks@).skip(start as int).take(k - start).push(views(toks@)[k as int]));
        k = k + 1;
    }
    assert(views(toks@).skip(start as int).take(toks.len() - start) =~= views(toks@).skip(start as int));
    let space = lit(" ");
    let rem = join_of(&rest_toks, &space);
    let parts = split_char_of(&rem, ',');
    let doc = doc_of_exec(&st.pending, &space);
    let ghost base = variables_view(st.results@);
    let ghost docv = opt_view(doc);
    let mut j: usize = 0;
    assert(views(parts@).take(0) =~= Seq::<Seq<char>>::empty());
    assert(base =~= base + declared_vars(views(parts@).take(0), ty@, q2@, docv, opt_view(*src), idx as nat, raw@, opt_view(*uri)));
    while j < parts.len()
        invariant
            j <= parts.len(),
            docv == opt_view(doc),
            st.brace == old(st).brace,
            var_scan_view(*st) == (VarScan { results: var_scan_view(*st).results, ..st0 }),
            variables_view(st.results@) == base + declared_vars(views(parts@).take(j as int), ty@, q2@, docv, opt_view(*src), idx as nat, raw@, opt_view(*uri)),
        decreases parts.len() - j,
    {
        let ghost prev = views(parts@).take(j as int);
        assert(views(parts@).take(j + 1).drop_last() =~= prev);
        assert(views(parts@).take(j + 1).last() == parts@[j as int]@);
        let pt = trim_of(&parts[j]);
        let name = until_of(&pt, 2);
        if valid_identifier_of(&name) && !word_in_list(&name, &INVALID_NAMES) && !word_in_list(&name, &INVALID_TYPES) {
            let col = col_of_exec(raw, &name);
            let d2 = opt_clone(&doc);
            let v = mk_var_exec(&name, &ty, &q2, d2, src, idx, col, uri);
            let ghost r0 = variables_view(st.results@);
            push_var(&mut st.results, v);
            assert(variables_view(st.results@) =~= r0.push(v@));
        }
        j = j + 1;
    }
    assert(views(parts@).take(parts.len() as int) =~= views(parts@));
}

fn decl_statement_of(clean: &Vec<char>) -> (r: Option<Vec<char>>)
    ensures
        optv_view(r) == decl_statement(clean@),
{
    let hash = lit("#");
    let semi = lit(";");
    let eqs = lit("=");
    let open = lit("(");
    if !starts_with_of(clean, &hash) && (contains_of(clean, &semi) || contains_of(clean, &eqs)) {
        let u = until_of(clean, 4);
        let stmt = trim_of(&u);
        let is_fn = match find_of(&stmt, &open) {
            Some(p) => p > 0,
            None => false,
        };
        if !is_fn && stmt.len() > 0 {
            Some(stmt)
        } else {
            None
        }
    } else {
        None
    }
}

fn var_step_exec(st: &mut VarScanExec, idx: usize, raw: &Vec<char>, src: &Option<String>, uri: &Option<String>)
    requires
        old(st).brace + raw.len() <= usize::MAX,
    ensures
        var_scan_view(*final(st)) == var_step(var_scan_view(*old(st)), idx as nat, raw@, opt_view(*src), opt_view(*uri)),
        final(st).brace <= old(st).brace + raw.len(),
{
    let line = trim_of(raw);
    proof {
        crate::text::lemma_lead_facts(raw@, crate::text::ws_pred());
        crate::text::lemma_trail_facts(crate::text::trim_start(raw@), crate::text::ws_pred());
    }
    assert(line@.len() <= raw@.len());
    let slashes = lit("//");
    if starts_with_of(&line, &slashes) {
        let d = doc_line_of(&line);
        if d.len() > 0 {
            push_vec(&mut st.pending, d);
        }
        return;
    }
    if line.len() == 0 {
        if st.brace == 0 {
            st.pending = Vec::new();
            assert(views(st.pending@) =~= Seq::<Seq<char>>::empty());
        }
        return;
    }
    let def = lit("#define");
    if starts_with_of(&line, &def) {
        proof {
            reveal_strlit("#define");
        }
        let rest = slice_of(&line, 7, line.len());
        assert(rest@ =~= line@.skip(7));
        define_step_exec(st, idx, raw, &rest, src, uri);
        return;
    }
    struct_step_exec(st, idx, raw, &line, src, uri);
    let al = after_layout_of(&line);
    let lb = lit("{");
    if contains_of(&al, &lb) {
        let u = lit("uniform");
        let b = lit("buffer");
        block_step_exec(st, idx, raw, &al, &u, src, uri);
        block_step_exec(st, idx, raw, &al, &b, src, uri);
    }
    let clean = clean_line_of(&line);
    instance_step_exec(st, idx, raw, &clean, src, uri);
    match decl_statement_of(&clean) {
        Some(stmt) => {
            statement_vars_exec(st, idx, raw, &stmt, src, uri);
        },
        None => {},
    }
    let open_b = count_char_of(&line, '{');
    let close_b = count_char_of(&line, '}');
    let b = st.brace + open_b;
    st.brace = if b >= close_b {
        b - close_b
    } else {
        0
    };
    let semi = lit(";");
    let rb = lit("}");
    if ends_with_of(&line, &semi) || ends_with_of(&line, &rb) {
        st.pending = Vec::new();
        assert(views(st.pending@) =~= Seq::<Seq<char>>::empty());
    }
}

/// Parses the variable, constant, macro, struct and interface block
/// declarations of GLSL source text, line by line.
pub fn scan_user_variables(text: &str, source_name: Option<&str>, file_uri: Option<&str>) -> (r: Vec<VariableSymbol>)
    ensures
        variables_view(r@) == user_variables(text@, opt_str_view(source_name), opt_str_view(file_uri)),
{
    let s = chars_of(text);
    let ls = lines_of_vec(&s);
    let src = opt_to_string(source_name);
    let uri = opt_to_string(file_uri);
    let mut st = VarScanExec {
        results: Vec::new(),
        pending: Vec::new(),
        custom: Vec::new(),
        brace: 0,
        block_type: None,
        block_qual: lit("uniform"),
    };
    proof {
        crate::text::lemma_lines_total(s@);
        assert(variables_view(st.results@) =~= Seq::<VariableView>::empty());
        assert(views(st.pending@) =~= Seq::<Seq<char>>::empty());
        assert(views(st.custom@) =~= Seq::<Seq<char>>::empty());
    }
    let mut i: usize = 0;
    assert(s.len() <= usize::MAX);
    while i < ls.len()
        invariant
            i <= ls.len(),
            views(ls@) == lines_of(s@),
            s@ == text@,
            s@.len() <= usize::MAX,
            crate::text::total_len(lines_of(s@)) <= s@.len(),
            st.brace <= crate::text::total_len(views(ls@).take(i as int)),
            opt_view(src) == opt_str_view(source_name),
            opt_view(uri) == opt_str_view(file_uri),
            var_scan_view(st) == var_scan(views(ls@), i as nat, opt_view(src), opt_view(uri)),
        decreases ls.len() - i,
    {
        proof {
            crate::text::lemma_total_len_split(views(ls@).take(i + 1), i as int);
            crate::text::lemma_total_len_split(views(ls@), i + 1);
            assert(views(ls@).take(i + 1).take(i as int) =~= views(ls@).take(i as int));
            assert(views(ls@).take(i + 1).skip(i as int) =~= seq![ls@[i as int]@]);
            assert(crate::text::total_len(seq![ls@[i as int]@]) == ls@[i as int]@.len() + crate::text::total_len(seq![ls@[i as int]@].drop_first()));
            assert(seq![ls@[i as int]@].drop_first().len() == 0);
            assert(views(ls@)[i as int] == ls@[i as int]@);
            assert(crate::text::total_len(views(ls@).take(i + 1)) == crate::text::total_len(views(ls@).take(i as int)) + ls@[i as int]@.len());
            assert(crate::text::total_len(views(ls@).take(i + 1)) <= crate::text::total_len(views(ls@)));
        }
        var_step_exec(&mut st, i, &ls[i], &src, &uri);
        i = i + 1;
    }
    st.results
}

} // verus!
