//! Vector dimensions and struct members of expressions, for member completion.
use vstd::prelude::*;
use crate::config::ascii_lower_of;
use crate::lexical::{in_list, word_in_list};
use crate::symbols::lit;
use crate::text::{
    ascii_lower, char_is_alphanumeric, chars_of, ends_with, ends_with_of, eq, find, find_of,
    is_ident_char, lemma_trim_len, lines_of, lines_of_vec, total_len, slice_of, split_char, split_char_of, starts_with,
    starts_with_of, trim, trim_end, trim_end_of, trim_of, views, words, words_of,
};
use crate::variables::{VariableSymbol, VariableView, variables_view};

verus! {

/// Four-component vector types.
pub const VEC4_TYPES: [&'static str; 5] = ["vec4", "ivec4", "uvec4", "dvec4", "bvec4"];

/// Three-component vector types.
pub const VEC3_TYPES: [&'static str; 5] = ["vec3", "ivec3", "uvec3", "dvec3", "bvec3"];

/// Two-component vector types.
pub const VEC2_TYPES: [&'static str; 5] = ["vec2", "ivec2", "uvec2", "dvec2", "bvec2"];

/// Built-in variables that hold four-component vectors.
pub const BUILTIN_VEC4_VARS: [&'static str; 5] = ["gl_Position", "gl_FragCoord", "gl_FragColor", "gl_Vertex", "gl_Color"];

/// Built-in variables that hold three-component vectors.
pub const BUILTIN_VEC3_VARS: [&'static str; 4] = [
    "gl_Normal",
    "gl_GlobalInvocationID",
    "gl_LocalInvocationID",
    "gl_WorkGroupID",
];

/// `str::to_ascii_lowercase`.
pub open spec fn ascii_lowercase(s: Seq<char>) -> Seq<char> {
    s.map_values(|c: char| ascii_lower(c))
}

pub fn ascii_lowercase_of(v: &Vec<char>) -> (r: Vec<char>)
    ensures
        r@ == ascii_lowercase(v@),
{
    let mut r: Vec<char> = Vec::new();
    let mut i: usize = 0;
    while i < v.len()
        invariant
            i <= v.len(),
            r@ == ascii_lowercase(v@.take(i as int)),
        decreases v.len() - i,
    {
        let c = ascii_lower_of(v[i]);
        r.push(c);
        assert(ascii_lowercase(v@.take(i + 1)) =~= ascii_lowercase(v@.take(i as int)).push(c));
        i = i + 1;
    }
    assert(v@.take(v.len() as int) =~= v@);
    r
}

/// A type with an array suffix (`vec4 x[3]` style, ending in `]`) cut before its `[`.
pub open spec fn bracket_stripped(c: Seq<char>) -> Seq<char> {
    if ends_with(c, "]"@) && find(c, "["@) is Some {
        trim_end(c.take(find(c, "["@).unwrap()))
    } else {
        c
    }
}

/// The last word of a type, without array suffix.
pub open spec fn type_base(t: Seq<char>) -> Seq<char> {
    let c = bracket_stripped(trim(t));
    if words(c).len() > 0 {
        words(c).last()
    } else {
        c
    }
}

/// The number of components of a vector type (2, 3 or 4), in any ASCII case.
pub open spec fn vector_dimension(t: Seq<char>) -> Option<usize> {
    let l = ascii_lowercase(type_base(t));
    if in_list(l, VEC4_TYPES) {
        Some(4)
    } else if in_list(l, VEC3_TYPES) {
        Some(3)
    } else if in_list(l, VEC2_TYPES) {
        Some(2)
    } else {
        None
    }
}

fn vector_dimension_of(t: &Vec<char>) -> (r: Option<usize>)
    ensures
        r == vector_dimension(t@),
{
    let mut c = trim_of(t);
    if ends_with_of(&c, &lit("]")) {
        match find_of(&c, &lit("[")) {
            Some(b) => {
                proof {
                    crate::text::lemma_find_from_facts(c@, "["@, 0);
                }
                let head = slice_of(&c, 0, b);
                c = trim_end_of(&head);
            },
            None => {},
        }
    }
    let ws = words_of(&c);
    let base = if ws.len() > 0 {
        assert(views(ws@).last() == ws@[ws.len() - 1]@);
        slice_of(&ws[ws.len() - 1], 0, ws[ws.len() - 1].len())
    } else {
        slice_of(&c, 0, c.len())
    };
    assert(ws.len() > 0 ==> base@ =~= views(ws@).last());
    assert(ws.len() == 0 ==> base@ =~= c@);
    let l = ascii_lowercase_of(&base);
    if word_in_list(&l, &VEC4_TYPES) {
        Some(4)
    } else if word_in_list(&l, &VEC3_TYPES) {
        Some(3)
    } else if word_in_list(&l, &VEC2_TYPES) {
        Some(2)
    } else {
        None
    }
}

/// The number of components of a vector type name such as `vec3` or
/// `highp ivec4[2]`; `None` for any other type.
pub fn parse_vector_dimension(type_text: &str) -> (r: Option<usize>)
    ensures
        r == vector_dimension(type_text@),
{
    let t = chars_of(type_text);
    vector_dimension_of(&t)
}

/// A trimmed line that starts a comment (`//`, `/*` or `*`).
pub open spec fn comment_start(t: Seq<char>) -> bool {
    starts_with(t, "//"@) || starts_with(t, "/*"@) || starts_with(t, "*"@)
}

/// The word before the first occurrence of `name` in `line`, where that
/// occurrence is a whole word and the line no comment; empty otherwise.
pub open spec fn decl_token(line: Seq<char>, name: Seq<char>) -> Seq<char> {
    if comment_start(trim(line)) {
        seq![]
    } else {
        match find(line, name) {
            Some(idx) => if (idx == 0 || !is_ident_char(line[idx - 1])) && (idx + name.len() >= line.len()
                || !is_ident_char(line[idx + name.len()])) {
                if words(line.take(idx)).len() > 0 {
                    words(line.take(idx)).last()
                } else {
                    seq![]
                }
            } else {
                seq![]
            },
            None => seq![],
        }
    }
}

/// The type word of the first line (from `i` on) that declares `name`.
pub open spec fn first_decl_type(ls: Seq<Seq<char>>, name: Seq<char>, i: int) -> Option<Seq<char>>
    decreases ls.len() - i,
{
    if i < 0 || i >= ls.len() {
        None
    } else if decl_token(ls[i], name).len() > 0 {
        Some(decl_token(ls[i], name))
    } else {
        first_decl_type(ls, name, i + 1)
    }
}

fn decl_token_of(line: &Vec<char>, name: &Vec<char>) -> (r: Vec<char>)
    ensures
        r@ == decl_token(line@, name@),
{
    let t = trim_of(line);
    if starts_with_of(&t, &lit("//")) || starts_with_of(&t, &lit("/*")) || starts_with_of(&t, &lit("*")) {
        return Vec::new();
    }
    match find_of(line, name) {
        Some(idx) => {
            proof {
                crate::text::lemma_find_from_facts(line@, name@, 0);
            }
            let before_ok = idx == 0 || !(char_is_alphanumeric(line[idx - 1]) || line[idx - 1] == '_');
            let end = idx + name.len();
            let after_ok = end >= line.len() || !(char_is_alphanumeric(line[end]) || line[end] == '_');
            if before_ok && after_ok {
                let before = slice_of(line, 0, idx);
                let ws = words_of(&before);
                if ws.len() > 0 {
                    assert(views(ws@).last() == ws@[ws.len() - 1]@);
                    slice_of(&ws[ws.len() - 1], 0, ws[ws.len() - 1].len())
                } else {
                    Vec::new()
                }
            } else {
                Vec::new()
            }
        },
        None => Vec::new(),
    }
}

fn first_decl_type_of(ls: &Vec<Vec<char>>, name: &Vec<char>) -> (r: Option<Vec<char>>)
    ensures
        match first_decl_type(views(ls@), name@, 0) {
            Some(t) => r matches Some(w) && w@ == t,
            None => r is None,
        },
{
    let mut i: usize = 0;
    while i < ls.len()
        invariant
            i <= ls.len(),
            first_decl_type(views(ls@), name@, 0) == first_decl_type(views(ls@), name@, i as int),
        decreases ls.len() - i,
    {
        assert(views(ls@)[i as int] == ls@[i as int]@);
        let tok = decl_token_of(&ls[i], name);
        if tok.len() > 0 {
            return Some(tok);
        }
        i = i + 1;
    }
    None
}

/// The non-empty pieces between dots of a trimmed expression.
pub open spec fn segments(expr: Seq<char>) -> Seq<Seq<char>> {
    split_char(trim(expr), '.').filter(nonempty_pred())
}

pub open spec fn nonempty_pred() -> spec_fn(Seq<char>) -> bool {
    |p: Seq<char>| p.len() > 0
}

fn segments_of(expr: &Vec<char>) -> (r: Vec<Vec<char>>)
    ensures
        views(r@) == segments(expr@),
{
    let t = trim_of(expr);
    let parts = split_char_of(&t, '.');
    let ghost pred = nonempty_pred();
    let mut r: Vec<Vec<char>> = Vec::new();
    let mut i: usize = 0;
    proof {
        crate::text::lemma_filter_empty(views(parts@).take(0), pred);
        assert(views(r@) =~= Seq::<Seq<char>>::empty());
    }
    while i < parts.len()
        invariant
            i <= parts.len(),
            views(parts@) == split_char(trim(expr@), '.'),
            views(r@) == views(parts@).take(i as int).filter(pred),
            pred == nonempty_pred(),
        decreases parts.len() - i,
    {
        proof {
            crate::text::lemma_filter_push(views(parts@).take(i as int), parts@[i as int]@, pred);
            assert(views(parts@).take(i + 1) =~= views(parts@).take(i as int).push(parts@[i as int]@));
        }
        if parts[i].len() > 0 {
            let p = slice_of(&parts[i], 0, parts[i].len());
            assert(p@ =~= parts@[i as int]@);
            let ghost old_r = views(r@);
            r.push(p);
            assert(views(r@) =~= old_r.push(parts@[i as int]@));
        }
        i = i + 1;
    }
    assert(views(parts@).take(parts.len() as int) =~= views(parts@));
    r
}

/// Index of the first variable (from `i` on) named `name`.
pub open spec fn var_index(vs: Seq<VariableView>, name: Seq<char>, i: int) -> Option<int>
    decreases vs.len() - i,
{
    if i < 0 || i >= vs.len() {
        None
    } else if vs[i].name == name {
        Some(i)
    } else {
        var_index(vs, name, i + 1)
    }
}

fn var_index_of(vars: &[VariableSymbol], name: &Vec<char>) -> (r: Option<usize>)
    ensures
        match r {
            Some(k) => var_index(variables_view(vars@), name@, 0) == Some(k as int) && k < vars@.len(),
            None => var_index(variables_view(vars@), name@, 0) is None,
        },
{
    let mut i: usize = 0;
    while i < vars.len()
        invariant
            i <= vars.len(),
            var_index(variables_view(vars@), name@, 0) == var_index(variables_view(vars@), name@, i as int),
        decreases vars.len() - i,
    {
        assert(variables_view(vars@)[i as int] == vars@[i as int]@);
        let n = chars_of(vars[i].name.as_str());
        if eq(&n, name) {
            return Some(i);
        }
        i = i + 1;
    }
    None
}

/// The dimension of a built-in vector variable.
pub open spec fn builtin_vector_dim(name: Seq<char>) -> Option<usize> {
    if in_list(name, BUILTIN_VEC4_VARS) {
        Some(4)
    } else if in_list(name, BUILTIN_VEC3_VARS) {
        Some(3)
    } else if name == "gl_PointCoord"@ {
        Some(2)
    } else {
        None
    }
}

/// A swizzle letter: one of `xyzwrgbastpq`.
pub open spec fn swizzle_letter(c: char) -> bool {
    c == 'x' || c == 'y' || c == 'z' || c == 'w' || c == 'r' || c == 'g' || c == 'b' || c == 'a'
        || c == 's' || c == 't' || c == 'p' || c == 'q'
}

/// Every character of `s` is a swizzle letter.
pub open spec fn all_swizzle_letters(s: Seq<char>) -> bool {
    forall|i: int| 0 <= i < s.len() ==> swizzle_letter(#[trigger] s[i])
}

/// The dimension of the dimension-giving type found for `name`: the type
/// word of its first declaration in the document.
pub open spec fn declared_dimension(doc: Seq<char>, name: Seq<char>) -> Option<usize> {
    match first_decl_type(lines_of(doc), name, 0) {
        Some(t) => vector_dimension(t),
        None => None,
    }
}

/// The vector dimension of an expression such as `color`, `t.a` or `p.xyz`:
/// for a single name, that of the known variable of that name (none if its
/// type is no vector), else of a built-in vector variable, else of its
/// declaration in the document; for a member access, the length of a
/// trailing swizzle of two to four letters, else the dimension of the
/// member's declaration in the document.
pub open spec fn inferred_dimension(vs: Seq<VariableView>, doc: Seq<char>, expr: Seq<char>) -> Option<usize> {
    let segs = segments(expr);
    if segs.len() == 0 {
        None
    } else if segs.len() == 1 {
        match var_index(vs, segs[0], 0) {
            Some(k) => vector_dimension(vs[k].var_type),
            None => if builtin_vector_dim(segs[0]) is Some {
                builtin_vector_dim(segs[0])
            } else {
                declared_dimension(doc, segs[0])
            },
        }
    } else {
        let last = segs.last();
        if 2 <= last.len() <= 4 && all_swizzle_letters(last) {
            Some(last.len() as usize)
        } else {
            declared_dimension(doc, last)
        }
    }
}

fn all_swizzle_letters_of(s: &Vec<char>) -> (r: bool)
    ensures
        r == all_swizzle_letters(s@),
{
    let mut i: usize = 0;
    while i < s.len()
        invariant
            i <= s.len(),
            forall|j: int| 0 <= j < i ==> swizzle_letter(#[trigger] s@[j]),
        decreases s.len() - i,
    {
        let c = s[i];
        if !(c == 'x' || c == 'y' || c == 'z' || c == 'w' || c == 'r' || c == 'g' || c == 'b' || c == 'a'
            || c == 's' || c == 't' || c == 'p' || c == 'q') {
            return false;
        }
        i = i + 1;
    }
    true
}

fn declared_dimension_of(doc: &Vec<char>, name: &Vec<char>) -> (r: Option<usize>)
    ensures
        r == declared_dimension(doc@, name@),
{
    let ls = lines_of_vec(doc);
    match first_decl_type_of(&ls, name) {
        Some(t) => vector_dimension_of(&t),
        None => None,
    }
}

/// The vector dimension of an expression, from the known variables, the
/// built-in variables and the declarations in the document.
pub fn infer_vector_dimension_from_vars(vars: &[VariableSymbol], doc: &str, expr: &str) -> (r: Option<usize>)
    ensures
        r == inferred_dimension(variables_view(vars@), doc@, expr@),
{
    let e = chars_of(expr);
    let segs = segments_of(&e);
    let d = chars_of(doc);
    if segs.len() == 0 {
        return None;
    }
    if segs.len() == 1 {
        assert(views(segs@)[0] == segs@[0]@);
        assert(segments(expr@)[0] == segs@[0]@);
        match var_index_of(vars, &segs[0]) {
            Some(k) => {
                assert(variables_view(vars@)[k as int] == vars@[k as int]@);
                assert(var_index(variables_view(vars@), segments(expr@)[0], 0) == Some(k as int));
                let t = chars_of(vars[k].var_type.as_str());
                return vector_dimension_of(&t);
            },
            None => {},
        }
        if word_in_list(&segs[0], &BUILTIN_VEC4_VARS) {
            return Some(4);
        }
        if word_in_list(&segs[0], &BUILTIN_VEC3_VARS) {
            return Some(3);
        }
        if eq(&segs[0], &lit("gl_PointCoord")) {
            return Some(2);
        }
        return declared_dimension_of(&d, &segs[0]);
    }
    let last = &segs[segs.len() - 1];
    assert(views(segs@).last() == last@);
    if 2 <= last.len() && last.len() <= 4 && all_swizzle_letters_of(last) {
        return Some(last.len());
    }
    declared_dimension_of(&d, last)
}

/// The vector dimension of an expression, from the built-in variables and
/// the declarations in the document.
pub fn infer_vector_dimension(doc: &str, expr: &str) -> (r: Option<usize>)
    ensures
        r == inferred_dimension(seq![], doc@, expr@),
{
    let none: Vec<VariableSymbol> = Vec::new();
    assert(variables_view(none@) =~= Seq::<VariableView>::empty());
    infer_vector_dimension_from_vars(none.as_slice(), doc, expr)
}

/// A swizzle of one to four letters, all from one set: `xyzw`, `rgba` or `stpq`.
pub open spec fn swizzle_pattern(s: Seq<char>) -> bool {
    0 < s.len() <= 4 && ((forall|i: int| 0 <= i < s.len() ==> (#[trigger] s[i] == 'x' || s[i] == 'y' || s[i] == 'z' || s[i] == 'w'))
        || (forall|i: int| 0 <= i < s.len() ==> (#[trigger] s[i] == 'r' || s[i] == 'g' || s[i] == 'b' || s[i] == 'a'))
        || (forall|i: int| 0 <= i < s.len() ==> (#[trigger] s[i] == 's' || s[i] == 't' || s[i] == 'p' || s[i] == 'q')))
}

fn all_in_set(s: &Vec<char>, a: char, b: char, c: char, d: char) -> (r: bool)
    ensures
        r == forall|i: int| 0 <= i < s.len() ==> (#[trigger] s@[i] == a || s@[i] == b || s@[i] == c || s@[i] == d),
{
    let mut i: usize = 0;
    while i < s.len()
        invariant
            i <= s.len(),
            forall|j: int| 0 <= j < i ==> (#[trigger] s@[j] == a || s@[j] == b || s@[j] == c || s@[j] == d),
        decreases s.len() - i,
    {
        let x = s[i];
        if !(x == a || x == b || x == c || x == d) {
            return false;
        }
        i = i + 1;
    }
    true
}

/// Whether `s` is a swizzle such as `xy`, `rgba` or `stp`.
pub fn is_swizzle_pattern(s: &str) -> (r: bool)
    ensures
        r == swizzle_pattern(s@),
{
    let v = chars_of(s);
    if v.len() == 0 || v.len() > 4 {
        return false;
    }
    all_in_set(&v, 'x', 'y', 'z', 'w') || all_in_set(&v, 'r', 'g', 'b', 'a') || all_in_set(&v, 's', 't', 'p', 'q')
}


/// Precision qualifiers that may come before a member's type.
pub const PRECISIONS: [&'static str; 3] = ["highp", "mediump", "lowp"];

/// The brace depth after the characters of `t`, starting from `depth`;
/// `None` where a `}` brings it back to zero (the struct is closed).
pub open spec fn brace_walk(t: Seq<char>, depth: nat) -> Option<nat>
    decreases t.len(),
{
    if t.len() == 0 {
        Some(depth)
    } else if t[0] == '{' {
        brace_walk(t.skip(1), depth + 1)
    } else if t[0] == '}' {
        if depth <= 1 {
            None
        } else {
            brace_walk(t.skip(1), (depth - 1) as nat)
        }
    } else {
        brace_walk(t.skip(1), depth)
    }
}

/// The part of `t` before its first `//`.
pub open spec fn before_comment(t: Seq<char>) -> Seq<char> {
    match find(t, "//"@) {
        Some(i) => t.take(i),
        None => t,
    }
}

pub open spec fn bracket_pred() -> spec_fn(char) -> bool {
    |c: char| c == '[' || c == ']'
}

pub open spec fn semi_pred() -> spec_fn(char) -> bool {
    |c: char| c == ';'
}

/// A member name: without surrounding brackets, and cut at its first `[`.
pub open spec fn field_name(item: Seq<char>) -> Seq<char> {
    let a = item.skip(crate::text::lead(item, bracket_pred()) as int);
    let b = a.take(a.len() - crate::text::trail(a, bracket_pred()));
    match find(b, "["@) {
        Some(i) => b.take(i),
        None => b,
    }
}

/// Members named by comma-separated pieces, each with type `ty`.
pub open spec fn piece_fields(pieces: Seq<Seq<char>>, ty: Seq<char>) -> Seq<(Seq<char>, Seq<char>)>
    decreases pieces.len(),
{
    if pieces.len() == 0 {
        seq![]
    } else {
        let n = field_name(trim(pieces[0]));
        (if crate::variables::valid_identifier(n) {
            seq![(n, ty)]
        } else {
            seq![]
        }) + piece_fields(pieces.drop_first(), ty)
    }
}

/// Members named by the words of a declaration, each with type `ty`.
pub open spec fn token_fields(toks: Seq<Seq<char>>, ty: Seq<char>) -> Seq<(Seq<char>, Seq<char>)>
    decreases toks.len(),
{
    if toks.len() == 0 {
        seq![]
    } else {
        piece_fields(split_char(toks[0], ','), ty) + token_fields(toks.drop_first(), ty)
    }
}

/// The members declared by one statement such as `highp vec3 a, b[2];`.
pub open spec fn statement_fields(clean: Seq<char>) -> Seq<(Seq<char>, Seq<char>)> {
    if !ends_with(clean, ";"@) {
        seq![]
    } else {
        let stmt = trim(clean.take(clean.len() - crate::text::trail(clean, semi_pred())));
        let toks = words(stmt);
        if toks.len() < 2 {
            seq![]
        } else if in_list(toks[0], PRECISIONS) && toks.len() >= 3 {
            token_fields(toks.skip(2), toks[1])
        } else {
            token_fields(toks.skip(1), toks[0])
        }
    }
}

/// Whether `line` opens the struct whose header is `pattern` (`struct Name`
/// followed by the end of the line, white space or `{`).
pub open spec fn opens_struct(line: Seq<char>, pattern: Seq<char>) -> bool {
    match find(line, pattern) {
        Some(p) => p + pattern.len() >= line.len() || crate::text::is_ws(line[p + pattern.len()])
            || line[p + pattern.len()] == '{',
        None => false,
    }
}

/// The state of a scan for the members of one struct.
pub struct FieldScan {
    pub inside: bool,
    pub depth: nat,
    pub fields: Seq<(Seq<char>, Seq<char>)>,
    pub done: bool,
}

/// One line of the member scan.
pub open spec fn field_step(st: FieldScan, line: Seq<char>, pattern: Seq<char>) -> FieldScan {
    let t = trim(line);
    if st.done || starts_with(t, "//"@) {
        st
    } else if !(st.inside || opens_struct(line, pattern)) {
        st
    } else {
        match brace_walk(t, st.depth) {
            None => FieldScan { inside: true, depth: 0, fields: st.fields, done: true },
            Some(d) => FieldScan {
                inside: true,
                depth: d,
                fields: if d >= 1 {
                    st.fields + statement_fields(trim(before_comment(t)))
                } else {
                    st.fields
                },
                done: false,
            },
        }
    }
}

/// The member scan over the first `n` lines.
pub open spec fn field_scan(ls: Seq<Seq<char>>, n: nat, pattern: Seq<char>) -> FieldScan
    decreases n,
{
    if n == 0 || n > ls.len() {
        FieldScan { inside: false, depth: 0, fields: seq![], done: false }
    } else {
        field_step(field_scan(ls, (n - 1) as nat, pattern), ls[n - 1], pattern)
    }
}

/// The members (name and type) of struct `name` as declared in `text`.
pub open spec fn struct_fields(name: Seq<char>, text: Seq<char>) -> Seq<(Seq<char>, Seq<char>)> {
    let ls = lines_of(text);
    field_scan(ls, ls.len(), "struct "@ + name).fields
}

/// The pairs of strings as pairs of character sequences.
pub open spec fn pairs_view(v: Seq<(String, String)>) -> Seq<(Seq<char>, Seq<char>)> {
    v.map_values(|p: (String, String)| (p.0@, p.1@))
}

fn brace_walk_of(t: &Vec<char>, depth: usize) -> (r: Option<usize>)
    requires
        depth + t.len() <= usize::MAX,
    ensures
        match brace_walk(t@, depth as nat) {
            Some(d) => r == Some(d as usize) && d <= depth + t.len(),
            None => r is None,
        },
{
    let mut i: usize = 0;
    let mut d: usize = depth;
    assert(t@.skip(0) =~= t@);
    while i < t.len()
        invariant
            i <= t.len(),
            d <= depth + i,
            depth + t.len() <= usize::MAX,
            brace_walk(t@, depth as nat) == brace_walk(t@.skip(i as int), d as nat),
        decreases t.len() - i,
    {
        assert(t@.skip(i as int).skip(1) =~= t@.skip(i + 1));
        if t[i] == '{' {
            d = d + 1;
        } else if t[i] == '}' {
            if d <= 1 {
                return None;
            }
            d = d - 1;
        }
        i = i + 1;
    }
    Some(d)
}

fn field_name_of(item: &Vec<char>) -> (r: Vec<char>)
    ensures
        r@ == field_name(item@),
{
    let mut a: usize = 0;
    while a < item.len() && (item[a] == '[' || item[a] == ']')
        invariant
            a <= item.len(),
            forall|j: int| 0 <= j < a ==> #[trigger] bracket_pred()(item@[j]),
        decreases item.len() - a,
    {
        a = a + 1;
    }
    proof {
        crate::text::lemma_lead(item@, bracket_pred(), a as int);
    }
    let s1 = slice_of(item, a, item.len());
    let mut k: usize = 0;
    while k < s1.len() && (s1[s1.len() - 1 - k] == '[' || s1[s1.len() - 1 - k] == ']')
        invariant
            k <= s1.len(),
            forall|j: int| s1.len() - k <= j < s1.len() ==> #[trigger] bracket_pred()(s1@[j]),
        decreases s1.len() - k,
    {
        k = k + 1;
    }
    proof {
        crate::text::lemma_trail(s1@, bracket_pred(), k as int);
    }
    let b = slice_of(&s1, 0, s1.len() - k);
    match find_of(&b, &lit("[")) {
        Some(i) => {
            proof {
                crate::text::lemma_find_from_facts(b@, "["@, 0);
            }
            slice_of(&b, 0, i)
        },
        None => b,
    }
}

fn piece_fields_of(pieces: &Vec<Vec<char>>, ty: &Vec<char>, out: &mut Vec<(String, String)>)
    ensures
        pairs_view(final(out)@) == pairs_view(old(out)@) + piece_fields(views(pieces@), ty@),
{
    let mut i: usize = 0;
    let ghost start = pairs_view(out@);
    assert(views(pieces@).skip(0) =~= views(pieces@));
    while i < pieces.len()
        invariant
            i <= pieces.len(),
            pairs_view(out@) + piece_fields(views(pieces@).skip(i as int), ty@) == start + piece_fields(
                views(pieces@),
                ty@,
            ),
        decreases pieces.len() - i,
    {
        let ghost ps = views(pieces@).skip(i as int);
        assert(ps.drop_first() =~= views(pieces@).skip(i + 1));
        assert(ps[0] == pieces@[i as int]@);
        let t = trim_of(&pieces[i]);
        let n = field_name_of(&t);
        let ghost before = pairs_view(out@);
        if crate::variables::valid_identifier_of(&n) {
            out.push((crate::text::string_of(&n), crate::text::string_of(ty)));
            assert(pairs_view(out@) =~= before + seq![(n@, ty@)]);
        }
        i = i + 1;
    }
    assert(views(pieces@).skip(0) =~= views(pieces@));
    assert(views(pieces@).skip(pieces.len() as int) =~= Seq::<Seq<char>>::empty());
}

fn token_fields_of(toks: &Vec<Vec<char>>, from: usize, ty: &Vec<char>, out: &mut Vec<(String, String)>)
    requires
        from <= toks.len(),
    ensures
        pairs_view(final(out)@) == pairs_view(old(out)@) + token_fields(views(toks@).skip(from as int), ty@),
{
    let mut i: usize = from;
    let ghost start = pairs_view(out@);
    while i < toks.len()
        invariant
            from <= i <= toks.len(),
            pairs_view(out@) + token_fields(views(toks@).skip(i as int), ty@) == start + token_fields(
                views(toks@).skip(from as int),
                ty@,
            ),
        decreases toks.len() - i,
    {
        let ghost ts = views(toks@).skip(i as int);
        assert(ts.drop_first() =~= views(toks@).skip(i + 1));
        assert(ts[0] == toks@[i as int]@);
        let pieces = split_char_of(&toks[i], ',');
        let ghost before = pairs_view(out@);
        piece_fields_of(&pieces, ty, out);
        assert(token_fields(ts, ty@) == piece_fields(views(pieces@), ty@) + token_fields(ts.drop_first(), ty@));
        assert(pairs_view(out@) + token_fields(views(toks@).skip(i + 1), ty@) =~= before + token_fields(ts, ty@));
        i = i + 1;
    }
    assert(views(toks@).skip(toks.len() as int) =~= Seq::<Seq<char>>::empty());
}

fn statement_fields_of(clean: &Vec<char>, out: &mut Vec<(String, String)>)
    ensures
        pairs_view(final(out)@) == pairs_view(old(out)@) + statement_fields(clean@),
{
    if !ends_with_of(clean, &lit(";")) {
        assert(pairs_view(out@) =~= pairs_view(out@) + statement_fields(clean@));
        return;
    }
    let mut k: usize = 0;
    while k < clean.len() && clean[clean.len() - 1 - k] == ';'
        invariant
            k <= clean.len(),
            forall|j: int| clean.len() - k <= j < clean.len() ==> #[trigger] semi_pred()(clean@[j]),
        decreases clean.len() - k,
    {
        k = k + 1;
    }
    proof {
        crate::text::lemma_trail(clean@, semi_pred(), k as int);
    }
    let head = slice_of(clean, 0, clean.len() - k);
    let stmt = trim_of(&head);
    let toks = words_of(&stmt);
    if toks.len() < 2 {
        assert(pairs_view(out@) =~= pairs_view(out@) + statement_fields(clean@));
        return;
    }
    assert(views(toks@)[0] == toks@[0]@);
    assert(views(toks@)[1] == toks@[1]@);
    if word_in_list(&toks[0], &PRECISIONS) && toks.len() >= 3 {
        token_fields_of(&toks, 2, &toks[1], out);
    } else {
        token_fields_of(&toks, 1, &toks[0], out);
    }
}

fn opens_struct_of(line: &Vec<char>, pattern: &Vec<char>) -> (r: bool)
    ensures
        r == opens_struct(line@, pattern@),
{
    match find_of(line, pattern) {
        Some(pos) => {
            let plen = pattern.len();
            proof {
                crate::text::lemma_find_from_facts(line@, pattern@, 0);
                assert(crate::text::match_at(line@, pattern@, pos as int));
                assert(pos + plen <= line.len());
            }
            let e = pos + plen;
            e >= line.len() || crate::text::char_is_whitespace(line[e]) || line[e] == '{'
        },
        None => false,
    }
}

proof fn lemma_field_scan_done(ls: Seq<Seq<char>>, n: nat, m: nat, pattern: Seq<char>)
    requires
        0 < n <= m <= ls.len(),
        field_scan(ls, n, pattern).done,
    ensures
        field_scan(ls, m, pattern) == field_scan(ls, n, pattern),
    decreases m - n,
{
    if m > n {
        lemma_field_scan_done(ls, n, (m - 1) as nat, pattern);
    }
}

fn struct_fields_of(name: &Vec<char>, text: &Vec<char>) -> (r: Vec<(String, String)>)
    ensures
        pairs_view(r@) == struct_fields(name@, text@),
{
    let ls = lines_of_vec(text);
    let mut pattern = lit("struct ");
    crate::text::extend(&mut pattern, name);
    let mut out: Vec<(String, String)> = Vec::new();
    let mut inside = false;
    let mut depth: usize = 0;
    let mut i: usize = 0;
    proof {
        crate::text::lemma_lines_total(text@);
        assert(pairs_view(out@) =~= Seq::<(Seq<char>, Seq<char>)>::empty());
        assert(views(ls@).skip(0) =~= views(ls@));
        assert(text@.len() == text.len());
    }
    while i < ls.len()
        invariant
            i <= ls.len(),
            views(ls@) == lines_of(text@),
            depth + total_len(views(ls@).skip(i as int)) <= total_len(views(ls@)),
            total_len(views(ls@)) <= text@.len(),
            text@.len() <= usize::MAX,
            pattern@ == "struct "@ + name@,
            field_scan(views(ls@), i as nat, pattern@) == (FieldScan {
                inside,
                depth: depth as nat,
                fields: pairs_view(out@),
                done: false,
            }),
        decreases ls.len() - i,
    {
        let ghost vl = views(ls@);
        assert(vl[i as int] == ls@[i as int]@);
        assert(vl.skip(i as int).drop_first() =~= vl.skip(i + 1));
        assert(total_len(vl.skip(i as int)) == vl[i as int].len() + total_len(vl.skip(i + 1)));
        let t = trim_of(&ls[i]);
        proof {
            lemma_trim_len(vl[i as int]);
        }
        if starts_with_of(&t, &lit("//")) {
            i = i + 1;
            continue;
        }
        if !inside && opens_struct_of(&ls[i], &pattern) {
            inside = true;
        }
        if inside {
            match brace_walk_of(&t, depth) {
                None => {
                    proof {
                        lemma_field_scan_done(vl, (i + 1) as nat, vl.len(), pattern@);
                    }
                    return out;
                },
                Some(d) => {
                    depth = d;
                    if d >= 1 {
                        let bc = match find_of(&t, &lit("//")) {
                            Some(j) => {
                                proof {
                                    crate::text::lemma_find_from_facts(t@, "//"@, 0);
                                }
                                slice_of(&t, 0, j)
                            },
                            None => slice_of(&t, 0, t.len()),
                        };
                        assert(bc@ =~= before_comment(t@));
                        let clean = trim_of(&bc);
                        statement_fields_of(&clean, &mut out);
                    }
                },
            }
        }
        i = i + 1;
    }
    out
}


/// The members of struct `struct_name` as declared in `text`: name and type,
/// in order of declaration.
pub fn parse_fields_from_text(struct_name: &str, text: &str) -> (r: Vec<(String, String)>)
    ensures
        pairs_view(r@) == struct_fields(struct_name@, text@),
{
    let n = chars_of(struct_name);
    let t = chars_of(text);
    struct_fields_of(&n, &t)
}

/// The members of struct `name` found in the first text (from `i` on) that declares any.
pub open spec fn cache_fields(cache: Seq<Seq<char>>, name: Seq<char>, i: int) -> Seq<(Seq<char>, Seq<char>)>
    decreases cache.len() - i,
{
    if i < 0 || i >= cache.len() {
        seq![]
    } else if struct_fields(name, cache[i]).len() > 0 {
        struct_fields(name, cache[i])
    } else {
        cache_fields(cache, name, i + 1)
    }
}

/// Index of the first variable (from `i` on) that is the struct `name`.
pub open spec fn struct_var_index(vs: Seq<VariableView>, name: Seq<char>, i: int) -> Option<int>
    decreases vs.len() - i,
{
    if i < 0 || i >= vs.len() {
        None
    } else if vs[i].name == name && vs[i].qualifier == "struct"@ {
        Some(i)
    } else {
        struct_var_index(vs, name, i + 1)
    }
}

/// Index of the first file (from `i` on) whose URI is `uri`.
pub open spec fn file_index(files: Seq<(Seq<char>, Seq<char>)>, uri: Seq<char>, i: int) -> Option<int>
    decreases files.len() - i,
{
    if i < 0 || i >= files.len() {
        None
    } else if files[i].0 == uri {
        Some(i)
    } else {
        file_index(files, uri, i + 1)
    }
}

/// The members of struct `name` declared in the file where the struct
/// variable of that name was found.
pub open spec fn file_fields(
    vs: Seq<VariableView>,
    files: Seq<(Seq<char>, Seq<char>)>,
    name: Seq<char>,
) -> Seq<(Seq<char>, Seq<char>)> {
    match struct_var_index(vs, name, 0) {
        Some(k) => match vs[k].file_uri {
            Some(u) => match file_index(files, u, 0) {
                Some(j) => struct_fields(name, files[j].1),
                None => seq![],
            },
            None => seq![],
        },
        None => seq![],
    }
}

/// The members of struct `name`: from the document, else from the first open
/// document that declares them, else from the file that defines the struct.
pub open spec fn fields_in_struct(
    name: Seq<char>,
    vs: Seq<VariableView>,
    doc: Seq<char>,
    cache: Seq<Seq<char>>,
    files: Seq<(Seq<char>, Seq<char>)>,
) -> Seq<(Seq<char>, Seq<char>)> {
    if struct_fields(name, doc).len() > 0 {
        struct_fields(name, doc)
    } else if cache_fields(cache, name, 0).len() > 0 {
        cache_fields(cache, name, 0)
    } else {
        file_fields(vs, files, name)
    }
}

fn struct_var_index_of(vars: &[VariableSymbol], name: &Vec<char>) -> (r: Option<usize>)
    ensures
        match r {
            Some(k) => struct_var_index(variables_view(vars@), name@, 0) == Some(k as int) && k < vars@.len(),
            None => struct_var_index(variables_view(vars@), name@, 0) is None,
        },
{
    let st = lit("struct");
    let mut i: usize = 0;
    while i < vars.len()
        invariant
            i <= vars.len(),
            st@ == "struct"@,
            struct_var_index(variables_view(vars@), name@, 0) == struct_var_index(
                variables_view(vars@),
                name@,
                i as int,
            ),
        decreases vars.len() - i,
    {
        assert(variables_view(vars@)[i as int] == vars@[i as int]@);
        let n = chars_of(vars[i].name.as_str());
        let q = chars_of(vars[i].qualifier.as_str());
        if eq(&n, name) && eq(&q, &st) {
            return Some(i);
        }
        i = i + 1;
    }
    None
}

fn file_index_of(files: &Vec<(String, String)>, uri: &Vec<char>) -> (r: Option<usize>)
    ensures
        match r {
            Some(k) => file_index(pairs_view(files@), uri@, 0) == Some(k as int) && k < files@.len(),
            None => file_index(pairs_view(files@), uri@, 0) is None,
        },
{
    let mut i: usize = 0;
    while i < files.len()
        invariant
            i <= files.len(),
            file_index(pairs_view(files@), uri@, 0) == file_index(pairs_view(files@), uri@, i as int),
        decreases files.len() - i,
    {
        assert(pairs_view(files@)[i as int] == (files@[i as int].0@, files@[i as int].1@));
        let u = chars_of(files[i].0.as_str());
        if eq(&u, uri) {
            return Some(i);
        }
        i = i + 1;
    }
    None
}

fn fields_in_struct_of(
    name: &Vec<char>,
    vars: &[VariableSymbol],
    doc: &Vec<char>,
    doc_cache: &Vec<String>,
    files: &Vec<(String, String)>,
) -> (r: Vec<(String, String)>)
    ensures
        pairs_view(r@) == fields_in_struct(
            name@,
            variables_view(vars@),
            doc@,
            crate::symbols::strings_view(doc_cache@),
            pairs_view(files@),
        ),
{
    let f = struct_fields_of(name, doc);
    if f.len() > 0 {
        return f;
    }
    assert(pairs_view(f@).len() == 0);
    let ghost cache = crate::symbols::strings_view(doc_cache@);
    let mut i: usize = 0;
    while i < doc_cache.len()
        invariant
            i <= doc_cache.len(),
            cache == crate::symbols::strings_view(doc_cache@),
            struct_fields(name@, doc@).len() == 0,
            cache_fields(cache, name@, 0) == cache_fields(cache, name@, i as int),
        decreases doc_cache.len() - i,
    {
        assert(cache[i as int] == doc_cache@[i as int]@);
        let t = chars_of(doc_cache[i].as_str());
        let g = struct_fields_of(name, &t);
        if g.len() > 0 {
            return g;
        }
        i = i + 1;
    }
    match struct_var_index_of(vars, name) {
        Some(k) => {
            assert(variables_view(vars@)[k as int] == vars@[k as int]@);
            match &vars[k].file_uri {
                Some(u) => {
                    let uc = chars_of(u.as_str());
                    match file_index_of(files, &uc) {
                        Some(j) => {
                            assert(pairs_view(files@)[j as int] == (files@[j as int].0@, files@[j as int].1@));
                            let t = chars_of(files[j].1.as_str());
                            struct_fields_of(name, &t)
                        },
                        None => Vec::new(),
                    }
                },
                None => Vec::new(),
            }
        },
        None => Vec::new(),
    }
}

/// The members of struct `struct_name`, looked up in the document, the open
/// documents (`doc_cache`) and the files that define struct variables
/// (`files`: URI and text).
pub fn find_fields_in_struct(
    struct_name: &str,
    vars: &[VariableSymbol],
    doc: &str,
    doc_cache: &Vec<String>,
    files: &Vec<(String, String)>,
) -> (r: Vec<(String, String)>)
    ensures
        pairs_view(r@) == fields_in_struct(
            struct_name@,
            variables_view(vars@),
            doc@,
            crate::symbols::strings_view(doc_cache@),
            pairs_view(files@),
        ),
{
    let n = chars_of(struct_name);
    let d = chars_of(doc);
    fields_in_struct_of(&n, vars, &d, doc_cache, files)
}

/// The type of the first member named `name`.
pub open spec fn field_type(fields: Seq<(Seq<char>, Seq<char>)>, name: Seq<char>, i: int) -> Option<Seq<char>>
    decreases fields.len() - i,
{
    if i < 0 || i >= fields.len() {
        None
    } else if fields[i].0 == name {
        Some(fields[i].1)
    } else {
        field_type(fields, name, i + 1)
    }
}

/// The type reached from `ty` through the members named by `segs` from `i` on.
pub open spec fn member_path_type(
    segs: Seq<Seq<char>>,
    i: int,
    ty: Seq<char>,
    vs: Seq<VariableView>,
    doc: Seq<char>,
    cache: Seq<Seq<char>>,
    files: Seq<(Seq<char>, Seq<char>)>,
) -> Option<Seq<char>>
    decreases segs.len() - i,
{
    if i < 0 || i >= segs.len() {
        Some(ty)
    } else {
        match field_type(fields_in_struct(ty, vs, doc, cache, files), segs[i], 0) {
            Some(t) => member_path_type(segs, i + 1, t, vs, doc, cache, files),
            None => None,
        }
    }
}

/// The members of the struct value named by an expression such as `m` or
/// `o.inner`: the type of its first name (a known variable, else its first
/// declaration in the document), followed through the member names.
pub open spec fn struct_members(
    vs: Seq<VariableView>,
    doc: Seq<char>,
    cache: Seq<Seq<char>>,
    files: Seq<(Seq<char>, Seq<char>)>,
    expr: Seq<char>,
) -> Seq<(Seq<char>, Seq<char>)> {
    let segs = segments(expr);
    if segs.len() == 0 {
        seq![]
    } else {
        let root = match var_index(vs, segs[0], 0) {
            Some(k) => Some(vs[k].var_type),
            None => first_decl_type(lines_of(doc), segs[0], 0),
        };
        match root {
            None => seq![],
            Some(t) => match member_path_type(segs, 1, t, vs, doc, cache, files) {
                Some(t2) => fields_in_struct(t2, vs, doc, cache, files),
                None => seq![],
            },
        }
    }
}

fn field_type_of(fields: &Vec<(String, String)>, name: &Vec<char>) -> (r: Option<Vec<char>>)
    ensures
        match field_type(pairs_view(fields@), name@, 0) {
            Some(t) => r matches Some(w) && w@ == t,
            None => r is None,
        },
{
    let mut i: usize = 0;
    while i < fields.len()
        invariant
            i <= fields.len(),
            field_type(pairs_view(fields@), name@, 0) == field_type(pairs_view(fields@), name@, i as int),
        decreases fields.len() - i,
    {
        assert(pairs_view(fields@)[i as int] == (fields@[i as int].0@, fields@[i as int].1@));
        let n = chars_of(fields[i].0.as_str());
        if eq(&n, name) {
            return Some(chars_of(fields[i].1.as_str()));
        }
        i = i + 1;
    }
    None
}

/// The members (name and type) of the struct value named by `expr`, for
/// completion after a dot.
pub fn extract_struct_members(
    vars: &[VariableSymbol],
    doc: &str,
    doc_cache: &Vec<String>,
    files: &Vec<(String, String)>,
    expr: &str,
) -> (r: Vec<(String, String)>)
    ensures
        pairs_view(r@) == struct_members(
            variables_view(vars@),
            doc@,
            crate::symbols::strings_view(doc_cache@),
            pairs_view(files@),
            expr@,
        ),
{
    let e = chars_of(expr);
    let d = chars_of(doc);
    let segs = segments_of(&e);
    let ghost vs = variables_view(vars@);
    let ghost cache = crate::symbols::strings_view(doc_cache@);
    let ghost fv = pairs_view(files@);
    if segs.len() == 0 {
        let empty: Vec<(String, String)> = Vec::new();
        assert(pairs_view(empty@) =~= Seq::<(Seq<char>, Seq<char>)>::empty());
        return empty;
    }
    assert(views(segs@)[0] == segs@[0]@);
    let root = match var_index_of(vars, &segs[0]) {
        Some(k) => {
            assert(variables_view(vars@)[k as int] == vars@[k as int]@);
            Some(chars_of(vars[k].var_type.as_str()))
        },
        None => {
            let ls = lines_of_vec(&d);
            first_decl_type_of(&ls, &segs[0])
        },
    };
    let mut ty = match root {
        Some(t) => t,
        None => {
            let empty: Vec<(String, String)> = Vec::new();
            assert(pairs_view(empty@) =~= Seq::<(Seq<char>, Seq<char>)>::empty());
            return empty;
        },
    };
    let mut i: usize = 1;
    while i < segs.len()
        invariant
            1 <= i <= segs.len(),
            views(segs@) == segments(expr@),
            d@ == doc@,
            vs == variables_view(vars@),
            cache == crate::symbols::strings_view(doc_cache@),
            fv == pairs_view(files@),
            member_path_type(views(segs@), 1, struct_members_root(vs, doc@, views(segs@)), vs, doc@, cache, fv)
                == member_path_type(views(segs@), i as int, ty@, vs, doc@, cache, fv),
        decreases segs.len() - i,
    {
        assert(views(segs@)[i as int] == segs@[i as int]@);
        let fields = fields_in_struct_of(&ty, vars, &d, doc_cache, files);
        match field_type_of(&fields, &segs[i]) {
            Some(t) => {
                ty = t;
            },
            None => {
                let empty: Vec<(String, String)> = Vec::new();
                assert(pairs_view(empty@) =~= Seq::<(Seq<char>, Seq<char>)>::empty());
                return empty;
            },
        }
        i = i + 1;
    }
    fields_in_struct_of(&ty, vars, &d, doc_cache, files)
}

/// The type of the first name of a member path (given as its segments).
pub open spec fn struct_members_root(vs: Seq<VariableView>, doc: Seq<char>, segs: Seq<Seq<char>>) -> Seq<char> {
    match var_index(vs, segs[0], 0) {
        Some(k) => vs[k].var_type,
        None => first_decl_type(lines_of(doc), segs[0], 0).unwrap(),
    }
}

} // verus!
