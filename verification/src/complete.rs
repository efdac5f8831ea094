//! The completion lists answered for a cursor position: members after a dot,
//! else user symbols, built-ins, keywords, directives and snippets, each
//! label once.
use vstd::prelude::*;
use crate::completion::{
    CompletionItem, DocView, Documentation, EditView, ItemView, TextEdit, dot_access, dot_access_of,
    following_paren, following_paren_of, word_prefix_of, generate_snippet_completions,
    generate_swizzle_completions, items_view, snippet_items, starts_with_ignore_case_of, swizzle_items,
    word_prefix,
};
use crate::docs::{
    BUILTIN_DIRECTIVES, BUILTIN_KEYWORDS, BUILTIN_TYPES, BUILTIN_VARIABLES, FunctionDocView, builtin_at,
    get_all_builtins,
};
use crate::lexical::{in_comment_or_string, is_in_comment_or_string};
use crate::symbols::{FunctionSignature, FunctionView, functions_view, lit, opt_clone};
use crate::text::{
    byte_col, byte_pos_of, char_floor, char_floor_of, chars_of, eq, extend, lead, lines_of, lines_of_vec, slice_of, starts_with, starts_with_ignore_case,
    starts_with_of, string_of, trim_start, trim_start_of, views,
};
use crate::variables::{VariableSymbol, VariableView, variables_view};
use crate::vectors::{extract_struct_members, inferred_dimension, infer_vector_dimension_from_vars, pairs_view, struct_members};

verus! {

/// The items of `s` mapped by `f` and joined in order.
pub open spec fn concat_map<A, B>(s: Seq<A>, f: spec_fn(A) -> Seq<B>) -> Seq<B>
    decreases s.len(),
{
    if s.len() == 0 {
        seq![]
    } else {
        concat_map(s.drop_last(), f) + f(s.last())
    }
}

pub proof fn lemma_concat_map_step<A, B>(s: Seq<A>, i: int, f: spec_fn(A) -> Seq<B>)
    requires
        0 <= i < s.len(),
    ensures
        concat_map(s.take(i + 1), f) == concat_map(s.take(i), f) + f(s[i]),
{
    assert(s.take(i + 1).drop_last() =~= s.take(i));
}

pub proof fn lemma_concat_map_all<A, B>(s: Seq<A>, f: spec_fn(A) -> Seq<B>)
    ensures
        concat_map(s.take(s.len() as int), f) == concat_map(s, f),
{
    assert(s.take(s.len() as int) =~= s);
}

/// The candidates without those whose label an earlier candidate has.
pub open spec fn dedup(s: Seq<ItemView>) -> Seq<ItemView>
    decreases s.len(),
{
    if s.len() == 0 {
        seq![]
    } else if exists|j: int| 0 <= j < s.len() - 1 && (#[trigger] s[j]).label == s.last().label {
        dedup(s.drop_last())
    } else {
        dedup(s.drop_last()).push(s.last())
    }
}

/// A word filter: an empty word lets everything pass, else the name must
/// start with it (ignoring ASCII case).
pub open spec fn name_matches(word: Seq<char>, name: Seq<char>) -> bool {
    word.len() == 0 || starts_with_ignore_case(name, word)
}

/// The documentation shown for a user symbol: where it was defined, and its comment.
pub open spec fn source_doc(source: Option<Seq<char>>, doc: Option<Seq<char>>) -> Seq<char> {
    match (source, doc) {
        (Some(s), Some(d)) => "*Defined in `"@ + s + "`*\n\n"@ + d,
        (Some(s), None) => "*Defined in `"@ + s + "`*"@,
        (None, Some(d)) => d,
        (None, None) => seq![],
    }
}

/// The range replaced by a completion, with its new text.
pub open spec fn edit_of(ln: nat, start: nat, end: nat, text: Seq<char>) -> Option<EditView> {
    Some(EditView { line: ln, start, end, new_text: text })
}

/// The item kind of a user symbol with qualifier `q`.
pub open spec fn var_kind(q: Seq<char>) -> u32 {
    if q == "struct"@ {
        22
    } else if q == "const"@ || q == "#define"@ {
        21
    } else {
        6
    }
}

pub open spec fn var_item(v: VariableView, ln: nat, ws: nat, we: nat) -> ItemView {
    ItemView {
        label: v.name,
        kind: var_kind(v.qualifier),
        detail: Some(v.qualifier + " "@ + v.var_type),
        documentation: DocView::Markdown(source_doc(v.source, v.doc)),
        insert_text: Some(v.name),
        insert_text_format: Some(1),
        text_edit: edit_of(ln, ws, we, v.name),
        sort_text: Some("00_"@ + v.name),
    }
}

/// The text inserted for a call: the bare name before an existing `(`,
/// else a snippet with the cursor inside or after the parentheses.
pub open spec fn call_insert(name: Seq<char>, paren: bool, has_params: bool) -> (Seq<char>, u32) {
    if paren {
        (name, 1)
    } else if has_params {
        (name + "($1)$0"@, 2)
    } else {
        (name + "()$0"@, 2)
    }
}

pub open spec fn func_item(f: FunctionView, ln: nat, ws: nat, we: nat, paren: bool) -> ItemView {
    let ins = call_insert(f.name, paren, f.parameters.len() > 0);
    ItemView {
        label: f.name,
        kind: 3,
        detail: Some(f.label),
        documentation: DocView::Markdown(source_doc(f.source, f.doc)),
        insert_text: Some(ins.0),
        insert_text_format: Some(ins.1),
        text_edit: edit_of(ln, ws, we, ins.0),
        sort_text: Some("01_"@ + f.name),
    }
}

pub open spec fn type_item(e: (&'static str, &'static str, &'static str, bool), ln: nat, ws: nat, we: nat) -> ItemView {
    ItemView {
        label: e.0@,
        kind: 25,
        detail: Some(e.1@),
        documentation: DocView::Markdown(e.2@),
        insert_text: Some(e.0@),
        insert_text_format: Some(1),
        text_edit: edit_of(ln, ws, we, e.0@),
        sort_text: Some("02_"@ + e.0@),
    }
}

pub open spec fn ctor_item(
    e: (&'static str, &'static str, &'static str, bool),
    ln: nat,
    ws: nat,
    we: nat,
    paren: bool,
) -> ItemView {
    let ins = call_insert(e.0@, paren, true);
    ItemView {
        label: e.0@ + "(...)"@,
        kind: 4,
        detail: Some(e.0@ + " constructor"@),
        documentation: DocView::Markdown(e.2@),
        insert_text: Some(ins.0),
        insert_text_format: Some(ins.1),
        text_edit: edit_of(ln, ws, we, ins.0),
        sort_text: Some("02_"@ + e.0@ + "_ctor"@),
    }
}

/// Some overload takes parameters.
pub open spec fn has_params(f: FunctionDocView) -> bool {
    exists|k: int| 0 <= k < f.overloads.len() && (#[trigger] f.overloads[k]).params.len() > 0
}

pub open spec fn builtin_item(f: FunctionDocView, ln: nat, ws: nat, we: nat, paren: bool) -> ItemView {
    let ins = call_insert(f.name, paren, has_params(f));
    ItemView {
        label: f.name,
        kind: 3,
        detail: Some(
            if f.overloads.len() > 0 {
                f.overloads[0].label
            } else {
                seq![]
            },
        ),
        documentation: DocView::Markdown(f.description),
        insert_text: Some(ins.0),
        insert_text_format: Some(ins.1),
        text_edit: edit_of(ln, ws, we, ins.0),
        sort_text: Some("03_"@ + f.name),
    }
}

pub open spec fn bvar_item(e: (&'static str, &'static str, &'static str, &'static str), ln: nat, ws: nat, we: nat) -> ItemView {
    ItemView {
        label: e.0@,
        kind: 6,
        detail: Some(e.2@ + " "@ + e.1@),
        documentation: DocView::Markdown(e.3@),
        insert_text: Some(e.0@),
        insert_text_format: Some(1),
        text_edit: edit_of(ln, ws, we, e.0@),
        sort_text: Some("04_"@ + e.0@),
    }
}

pub open spec fn keyword_item(e: (&'static str, &'static str, &'static str), ln: nat, ws: nat, we: nat) -> ItemView {
    ItemView {
        label: e.0@,
        kind: 14,
        detail: Some(e.1@),
        documentation: DocView::Markdown(e.2@),
        insert_text: Some(e.0@),
        insert_text_format: Some(1),
        text_edit: edit_of(ln, ws, we, e.0@),
        sort_text: Some("05_"@ + e.0@),
    }
}

pub open spec fn directive_item(
    e: (&'static str, &'static str, &'static str),
    ins: Seq<char>,
    ln: nat,
    ws: nat,
    we: nat,
) -> ItemView {
    ItemView {
        label: e.0@,
        kind: 14,
        detail: Some(e.1@),
        documentation: DocView::Markdown(e.2@),
        insert_text: Some(ins),
        insert_text_format: Some(1),
        text_edit: edit_of(ln, ws, we, ins),
        sort_text: Some("06_"@ + e.0@),
    }
}

pub open spec fn hash_pred() -> spec_fn(char) -> bool {
    |c: char| c == '#'
}

/// `s` without its leading `#` characters.
pub open spec fn strip_hashes(s: Seq<char>) -> Seq<char> {
    s.skip(lead(s, hash_pred()) as int)
}

/// The cursor position and the text around it that a completion uses.
pub struct CursorContext {
    pub ln: nat,
    pub word_start: nat,
    pub word_end: nat,
    pub paren: bool,
    pub word: Seq<char>,
    pub prefix: Seq<char>,
}

pub open spec fn var_fn(c: CursorContext) -> spec_fn(VariableView) -> Seq<ItemView> {
    |v: VariableView|
        if name_matches(c.word, v.name) {
            seq![var_item(v, c.ln, c.word_start, c.word_end)]
        } else {
            seq![]
        }
}

pub open spec fn func_fn(c: CursorContext) -> spec_fn(FunctionView) -> Seq<ItemView> {
    |f: FunctionView|
        if name_matches(c.word, f.name) {
            seq![func_item(f, c.ln, c.word_start, c.word_end, c.paren)]
        } else {
            seq![]
        }
}

pub open spec fn type_fn(c: CursorContext) -> spec_fn((&'static str, &'static str, &'static str, bool)) -> Seq<ItemView> {
    |e: (&'static str, &'static str, &'static str, bool)|
        if name_matches(c.word, e.0@) {
            seq![type_item(e, c.ln, c.word_start, c.word_end)] + if e.3 {
                seq![ctor_item(e, c.ln, c.word_start, c.word_end, c.paren)]
            } else {
                seq![]
            }
        } else {
            seq![]
        }
}

pub open spec fn builtin_fn(c: CursorContext) -> spec_fn(FunctionDocView) -> Seq<ItemView> {
    |f: FunctionDocView|
        if name_matches(c.word, f.name) {
            seq![builtin_item(f, c.ln, c.word_start, c.word_end, c.paren)]
        } else {
            seq![]
        }
}

pub open spec fn bvar_fn(c: CursorContext) -> spec_fn((&'static str, &'static str, &'static str, &'static str)) -> Seq<ItemView> {
    |e: (&'static str, &'static str, &'static str, &'static str)|
        if name_matches(c.word, e.0@) {
            seq![bvar_item(e, c.ln, c.word_start, c.word_end)]
        } else {
            seq![]
        }
}

pub open spec fn keyword_fn(c: CursorContext) -> spec_fn((&'static str, &'static str, &'static str)) -> Seq<ItemView> {
    |e: (&'static str, &'static str, &'static str)|
        if name_matches(c.word, e.0@) {
            seq![keyword_item(e, c.ln, c.word_start, c.word_end)]
        } else {
            seq![]
        }
}

/// Whether the cursor is in a preprocessor line.
pub open spec fn in_directive(c: CursorContext) -> bool {
    starts_with(trim_start(c.prefix), "#"@) || starts_with(c.word, "#"@)
}

/// Whether directive `name` is offered at the cursor.
pub open spec fn directive_matches(c: CursorContext, name: Seq<char>) -> bool {
    if in_directive(c) {
        starts_with_ignore_case(
            name,
            if starts_with(c.word, "#"@) {
                c.word
            } else {
                trim_start(c.prefix)
            },
        )
    } else {
        c.word.len() > 0 && starts_with_ignore_case(strip_hashes(name), c.word)
    }
}

/// The text inserted for directive `name`: without `#` where the line already has one.
pub open spec fn directive_insert(c: CursorContext, name: Seq<char>) -> Seq<char> {
    if starts_with(trim_start(c.prefix), "#"@) && !starts_with(c.word, "#"@) {
        strip_hashes(name)
    } else {
        name
    }
}

pub open spec fn directive_fn(c: CursorContext) -> spec_fn((&'static str, &'static str, &'static str)) -> Seq<ItemView> {
    |e: (&'static str, &'static str, &'static str)|
        if directive_matches(c, e.0@) {
            seq![directive_item(e, directive_insert(c, e.0@), c.ln, c.word_start, c.word_end)]
        } else {
            seq![]
        }
}

/// All built-in functions, as documented.
pub open spec fn all_builtins() -> Seq<FunctionDocView> {
    Seq::new(71, |i: int| builtin_at(i))
}

/// The user symbols' completions.
pub open spec fn user_candidates(c: CursorContext, vars: Seq<VariableView>, funcs: Seq<FunctionView>) -> Seq<ItemView> {
    concat_map(vars, var_fn(c)) + concat_map(funcs, func_fn(c))
}

/// The built-in completions: types and constructors, functions, variables,
/// keywords, directives, and snippets for a non-empty word.
pub open spec fn builtin_candidates(c: CursorContext) -> Seq<ItemView> {
    concat_map(BUILTIN_TYPES@, type_fn(c)) + concat_map(all_builtins(), builtin_fn(c)) + concat_map(
        BUILTIN_VARIABLES@,
        bvar_fn(c),
    ) + concat_map(BUILTIN_KEYWORDS@, keyword_fn(c)) + concat_map(BUILTIN_DIRECTIVES@, directive_fn(c)) + (
    if c.word.len() > 0 {
        snippet_items(c.word)
    } else {
        seq![]
    })
}

/// The context of a cursor at character `safe` of line `ln` (with text
/// `line`); the start and end of the word are byte offsets in the line.
pub open spec fn cursor_context(line: Seq<char>, ln: nat, safe: nat) -> CursorContext {
    let prefix = line.take(safe as int);
    CursorContext {
        ln,
        word_start: byte_col(line, word_prefix(prefix).0 as int),
        word_end: byte_col(line, following_paren(line, safe).0 as int),
        paren: following_paren(line, safe).1,
        word: word_prefix(prefix).1,
        prefix,
    }
}

/// `item` with an edit that puts its label in place of `start..end` of line `ln`.
pub open spec fn with_label_edit(item: ItemView, ln: nat, start: nat, end: nat) -> ItemView {
    ItemView { text_edit: edit_of(ln, start, end, item.label), ..item }
}

pub open spec fn swizzle_fn(member: Seq<char>, ln: nat, start: nat, end: nat) -> spec_fn(ItemView) -> Seq<ItemView> {
    |it: ItemView|
        if member.len() == 0 || starts_with_ignore_case(it.label, member) {
            seq![with_label_edit(it, ln, start, end)]
        } else {
            seq![]
        }
}

/// The completion of a struct member `name` of type `ty`.
pub open spec fn member_item(name: Seq<char>, ty: Seq<char>, ln: nat, start: nat, end: nat) -> ItemView {
    ItemView {
        label: name,
        kind: 5,
        detail: Some(ty),
        documentation: DocView::Absent,
        insert_text: Some(name),
        insert_text_format: Some(1),
        text_edit: edit_of(ln, start, end, name),
        sort_text: Some("00_"@ + name),
    }
}

pub open spec fn member_fn(member: Seq<char>, ln: nat, start: nat, end: nat) -> spec_fn((Seq<char>, Seq<char>)) -> Seq<ItemView> {
    |m: (Seq<char>, Seq<char>)|
        if member.len() == 0 || starts_with_ignore_case(m.0, member) {
            seq![member_item(m.0, m.1, ln, start, end)]
        } else {
            seq![]
        }
}

/// The completions after `expr.` (with partial member word `member`): the
/// swizzles of a vector, else the members of a struct.
pub open spec fn member_completions(
    vars: Seq<VariableView>,
    doc: Seq<char>,
    cache: Seq<Seq<char>>,
    files: Seq<(Seq<char>, Seq<char>)>,
    expr: Seq<char>,
    member: Seq<char>,
    ln: nat,
    start: nat,
    end: nat,
) -> Seq<ItemView> {
    match inferred_dimension(vars, doc, expr) {
        Some(d) => concat_map(swizzle_items(d), swizzle_fn(member, ln, start, end)),
        None => concat_map(struct_members(vars, doc, cache, files, expr), member_fn(member, ln, start, end)),
    }
}

/// The completion list for the cursor at line `ln`, column `col` of `doc`:
/// nothing in a comment or string or past the last line; after `expr.`,
/// the members of `expr`; else the user symbols, the built-ins, keywords,
/// directives and snippets that the word being typed starts, each label once.
pub open spec fn completion_list(
    doc: Seq<char>,
    ln: nat,
    col: nat,
    vars: Seq<VariableView>,
    funcs: Seq<FunctionView>,
    cache: Seq<Seq<char>>,
    files: Seq<(Seq<char>, Seq<char>)>,
) -> Seq<ItemView> {
    if in_comment_or_string(doc, ln, col) || ln >= lines_of(doc).len() {
        seq![]
    } else {
        let line = lines_of(doc)[ln as int];
        let safe = char_floor(line, col);
        let da = dot_access(line.take(safe as int));
        if da.0 && da.1.len() > 0 {
            member_completions(vars, doc, cache, files, da.1, da.2, ln, byte_col(line, da.3 + 1int), byte_col(line, safe as int))
        } else {
            let c = cursor_context(line, ln, safe);
            dedup(user_candidates(c, vars, funcs) + builtin_candidates(c))
        }
    }
}


/// The cursor context made of its parts.
pub open spec fn mk_ctx(ln: nat, ws: nat, we: nat, paren: bool, word: Seq<char>, prefix: Seq<char>) -> CursorContext {
    CursorContext { ln, word_start: ws, word_end: we, paren, word, prefix }
}

fn name_matches_of(word: &Vec<char>, name: &Vec<char>) -> (r: bool)
    ensures
        r == name_matches(word@, name@),
{
    word.len() == 0 || starts_with_ignore_case_of(name, word)
}

fn str_of(s: &'static str) -> (r: String)
    ensures
        r@ == s@,
{
    string_of(&chars_of(s))
}

fn cat(a: &Vec<char>, b: &'static str) -> (r: Vec<char>)
    ensures
        r@ == a@ + b@,
{
    let mut r = slice_of(a, 0, a.len());
    assert(r@ =~= a@);
    extend(&mut r, &chars_of(b));
    r
}

fn source_doc_of(source: &Option<String>, doc: &Option<String>) -> (r: String)
    ensures
        r@ == source_doc(crate::symbols::opt_view(*source), crate::symbols::opt_view(*doc)),
{
    match (source, doc) {
        (Some(s), Some(d)) => {
            let mut v = lit("*Defined in `");
            extend(&mut v, &chars_of(s.as_str()));
            extend(&mut v, &lit("`*\n\n"));
            extend(&mut v, &chars_of(d.as_str()));
            string_of(&v)
        },
        (Some(s), None) => {
            let mut v = lit("*Defined in `");
            extend(&mut v, &chars_of(s.as_str()));
            extend(&mut v, &lit("`*"));
            string_of(&v)
        },
        (None, Some(d)) => d.clone(),
        (None, None) => string_of(&Vec::new()),
    }
}

fn edit_with(ln: usize, start: usize, end: usize, text: &Vec<char>) -> (r: Option<TextEdit>)
    ensures
        crate::completion::opt_edit_view(r) == edit_of(ln as nat, start as nat, end as nat, text@),
{
    Some(TextEdit { line: ln, start, end, new_text: string_of(text) })
}

fn var_item_of(v: &VariableSymbol, ln: usize, ws: usize, we: usize) -> (r: CompletionItem)
    ensures
        r@ == var_item(v@, ln as nat, ws as nat, we as nat),
{
    let q = chars_of(v.qualifier.as_str());
    let kind: u32 = if eq(&q, &lit("struct")) {
        22
    } else if eq(&q, &lit("const")) || eq(&q, &lit("#define")) {
        21
    } else {
        6
    };
    let mut detail = cat(&q, " ");
    extend(&mut detail, &chars_of(v.var_type.as_str()));
    let n = chars_of(v.name.as_str());
    CompletionItem {
        label: v.name.clone(),
        kind,
        detail: Some(string_of(&detail)),
        documentation: Documentation::Markdown(source_doc_of(&v.source, &v.doc)),
        insert_text: Some(v.name.clone()),
        insert_text_format: Some(1),
        text_edit: edit_with(ln, ws, we, &n),
        sort_text: Some(string_of(&{
            let mut t = lit("00_");
            extend(&mut t, &n);
            t
        })),
    }
}

fn call_insert_of(name: &Vec<char>, paren: bool, has_params: bool) -> (r: (Vec<char>, u32))
    ensures
        r.0@ == call_insert(name@, paren, has_params).0,
        r.1 == call_insert(name@, paren, has_params).1,
{
    if paren {
        (slice_of(name, 0, name.len()), 1)
    } else if has_params {
        (cat(name, "($1)$0"), 2)
    } else {
        (cat(name, "()$0"), 2)
    }
}

fn func_item_of(f: &FunctionSignature, ln: usize, ws: usize, we: usize, paren: bool) -> (r: CompletionItem)
    ensures
        r@ == func_item(f@, ln as nat, ws as nat, we as nat, paren),
{
    let n = chars_of(f.name.as_str());
    let ins = call_insert_of(&n, paren, f.parameters.len() > 0);
    assert(n@.take(n.len() as int) =~= n@);
    let mut t = lit("01_");
    extend(&mut t, &n);
    CompletionItem {
        label: f.name.clone(),
        kind: 3,
        detail: Some(f.label.clone()),
        documentation: Documentation::Markdown(source_doc_of(&f.source, &f.doc)),
        insert_text: Some(string_of(&ins.0)),
        insert_text_format: Some(ins.1),
        text_edit: edit_with(ln, ws, we, &ins.0),
        sort_text: Some(string_of(&t)),
    }
}

fn type_items_of(
    e: (&'static str, &'static str, &'static str, bool),
    ln: usize,
    ws: usize,
    we: usize,
    paren: bool,
    out: &mut Vec<CompletionItem>,
)
    ensures
        items_view(final(out)@) == items_view(old(out)@) + seq![type_item(e, ln as nat, ws as nat, we as nat)] + if e.3 {
            seq![ctor_item(e, ln as nat, ws as nat, we as nat, paren)]
        } else {
            seq![]
        },
{
    let n = chars_of(e.0);
    let mut t = lit("02_");
    extend(&mut t, &n);
    let ghost before = items_view(out@);
    out.push(
        CompletionItem {
            label: str_of(e.0),
            kind: 25,
            detail: Some(str_of(e.1)),
            documentation: Documentation::Markdown(str_of(e.2)),
            insert_text: Some(str_of(e.0)),
            insert_text_format: Some(1),
            text_edit: edit_with(ln, ws, we, &n),
            sort_text: Some(string_of(&t)),
        },
    );
    assert(items_view(out@) =~= before + seq![type_item(e, ln as nat, ws as nat, we as nat)]);
    if e.3 {
        let ins = call_insert_of(&n, paren, true);
        let label = cat(&n, "(...)");
        let detail = cat(&n, " constructor");
        let sort = cat(&t, "_ctor");
        let ghost mid = items_view(out@);
        out.push(
            CompletionItem {
                label: string_of(&label),
                kind: 4,
                detail: Some(string_of(&detail)),
                documentation: Documentation::Markdown(str_of(e.2)),
                insert_text: Some(string_of(&ins.0)),
                insert_text_format: Some(ins.1),
                text_edit: edit_with(ln, ws, we, &ins.0),
                sort_text: Some(string_of(&sort)),
            },
        );
        assert(items_view(out@) =~= mid.push(ctor_item(e, ln as nat, ws as nat, we as nat, paren)));
    } else {
        assert(items_view(out@) =~= items_view(out@) + Seq::<ItemView>::empty());
    }
}

fn builtin_item_of(f: &crate::docs::BuiltinFunction, ln: usize, ws: usize, we: usize, paren: bool) -> (r: CompletionItem)
    ensures
        r@ == builtin_item(f@, ln as nat, ws as nat, we as nat, paren),
{
    let n = chars_of(f.name);
    let mut hp = false;
    let mut k: usize = 0;
    while k < f.overloads.len()
        invariant
            k <= f.overloads.len(),
            hp == exists|j: int| 0 <= j < k && (#[trigger] f@.overloads[j]).params.len() > 0,
        decreases f.overloads.len() - k,
    {
        assert(f@.overloads[k as int] == f.overloads@[k as int]@);
        if f.overloads[k].params.len() > 0 {
            hp = true;
        }
        k = k + 1;
    }
    let ins = call_insert_of(&n, paren, hp);
    let detail = if f.overloads.len() > 0 {
        assert(f@.overloads[0] == f.overloads@[0]@);
        str_of(f.overloads[0].label)
    } else {
        string_of(&Vec::new())
    };
    let mut t = lit("03_");
    extend(&mut t, &n);
    CompletionItem {
        label: str_of(f.name),
        kind: 3,
        detail: Some(detail),
        documentation: Documentation::Markdown(str_of(f.description)),
        insert_text: Some(string_of(&ins.0)),
        insert_text_format: Some(ins.1),
        text_edit: edit_with(ln, ws, we, &ins.0),
        sort_text: Some(string_of(&t)),
    }
}

fn simple_item_of(
    label: &'static str,
    kind: u32,
    detail: &Vec<char>,
    doc: &'static str,
    ins: &Vec<char>,
    sort: &Vec<char>,
    ln: usize,
    ws: usize,
    we: usize,
) -> (r: CompletionItem)
    ensures
        r@ == (ItemView {
            label: label@,
            kind,
            detail: Some(detail@),
            documentation: DocView::Markdown(doc@),
            insert_text: Some(ins@),
            insert_text_format: Some(1),
            text_edit: edit_of(ln as nat, ws as nat, we as nat, ins@),
            sort_text: Some(sort@),
        }),
{
    CompletionItem {
        label: str_of(label),
        kind,
        detail: Some(string_of(detail)),
        documentation: Documentation::Markdown(str_of(doc)),
        insert_text: Some(string_of(ins)),
        insert_text_format: Some(1),
        text_edit: edit_with(ln, ws, we, ins),
        sort_text: Some(string_of(sort)),
    }
}

fn strip_hashes_of(v: &Vec<char>) -> (r: Vec<char>)
    ensures
        r@ == strip_hashes(v@),
{
    let mut k: usize = 0;
    while k < v.len() && v[k] == '#'
        invariant
            k <= v.len(),
            forall|j: int| 0 <= j < k ==> #[trigger] hash_pred()(v@[j]),
        decreases v.len() - k,
    {
        k = k + 1;
    }
    proof {
        crate::text::lemma_lead(v@, hash_pred(), k as int);
    }
    slice_of(v, k, v.len())
}

/// Appends the candidates of the user symbols.
fn push_user_candidates(
    vars: &[VariableSymbol],
    funcs: &[FunctionSignature],
    word: &Vec<char>,
    prefix: &Vec<char>,
    ln: usize,
    ws: usize,
    we: usize,
    paren: bool,
    out: &mut Vec<CompletionItem>,
)
    ensures
        items_view(final(out)@) == items_view(old(out)@) + user_candidates(
            mk_ctx(ln as nat, ws as nat, we as nat, paren, word@, prefix@),
            variables_view(vars@),
            functions_view(funcs@),
        ),
{
    let ghost c = mk_ctx(ln as nat, ws as nat, we as nat, paren, word@, prefix@);
    let ghost start = items_view(out@);
    let ghost vs = variables_view(vars@);
    let mut i: usize = 0;
    while i < vars.len()
        invariant
            i <= vars.len(),
            vs == variables_view(vars@),
            c == mk_ctx(ln as nat, ws as nat, we as nat, paren, word@, prefix@),
            items_view(out@) == start + concat_map(vs.take(i as int), var_fn(c)),
        decreases vars.len() - i,
    {
        proof {
            lemma_concat_map_step(vs, i as int, var_fn(c));
        }
        assert(vs[i as int] == vars@[i as int]@);
        let n = chars_of(vars[i].name.as_str());
        let ghost before = items_view(out@);
        if name_matches_of(word, &n) {
            out.push(var_item_of(&vars[i], ln, ws, we));
            assert(items_view(out@) =~= before + seq![var_item(vs[i as int], ln as nat, ws as nat, we as nat)]);
        } else {
            assert(var_fn(c)(vs[i as int]) =~= Seq::<ItemView>::empty());
        }
        i = i + 1;
    }
    proof {
        lemma_concat_map_all(vs, var_fn(c));
    }
    let ghost mid = items_view(out@);
    let ghost fs = functions_view(funcs@);
    let mut i: usize = 0;
    while i < funcs.len()
        invariant
            i <= funcs.len(),
            fs == functions_view(funcs@),
            c == mk_ctx(ln as nat, ws as nat, we as nat, paren, word@, prefix@),
            items_view(out@) == mid + concat_map(fs.take(i as int), func_fn(c)),
        decreases funcs.len() - i,
    {
        proof {
            lemma_concat_map_step(fs, i as int, func_fn(c));
        }
        assert(fs[i as int] == funcs@[i as int]@);
        let n = chars_of(funcs[i].name.as_str());
        let ghost before = items_view(out@);
        if name_matches_of(word, &n) {
            out.push(func_item_of(&funcs[i], ln, ws, we, paren));
            assert(items_view(out@) =~= before + seq![func_item(fs[i as int], ln as nat, ws as nat, we as nat, paren)]);
        } else {
            assert(func_fn(c)(fs[i as int]) =~= Seq::<ItemView>::empty());
        }
        i = i + 1;
    }
    proof {
        lemma_concat_map_all(fs, func_fn(c));
    }
}


/// Appends the candidates of the built-in types.
fn push_type_candidates(
    word: &Vec<char>,
    prefix: &Vec<char>,
    ln: usize,
    ws: usize,
    we: usize,
    paren: bool,
    out: &mut Vec<CompletionItem>,
)
    ensures
        items_view(final(out)@) == items_view(old(out)@) + concat_map(BUILTIN_TYPES@, type_fn(mk_ctx(ln as nat, ws as nat, we as nat, paren, word@, prefix@))),
{
    let ghost c = mk_ctx(ln as nat, ws as nat, we as nat, paren, word@, prefix@);
    let ghost s0 = items_view(out@);
    let mut i: usize = 0;
    while i < 88
        invariant
            i <= 88,
            c == mk_ctx(ln as nat, ws as nat, we as nat, paren, word@, prefix@),
            items_view(out@) == s0 + concat_map(BUILTIN_TYPES@.take(i as int), type_fn(c)),
        decreases 88 - i,
    {
        proof {
            lemma_concat_map_step(BUILTIN_TYPES@, i as int, type_fn(c));
        }
        let e = BUILTIN_TYPES[i];
        let n = chars_of(e.0);
        let ghost before = items_view(out@);
        if name_matches_of(word, &n) {
            type_items_of(e, ln, ws, we, paren, out);
            assert(items_view(out@) =~= before + type_fn(c)(e));
        } else {
            assert(type_fn(c)(e) =~= Seq::<ItemView>::empty());
        }
        i = i + 1;
    }
    proof {
        lemma_concat_map_all(BUILTIN_TYPES@, type_fn(c));
    }
}

/// Appends the candidates of the built-in functions.
fn push_function_candidates(
    word: &Vec<char>,
    prefix: &Vec<char>,
    ln: usize,
    ws: usize,
    we: usize,
    paren: bool,
    out: &mut Vec<CompletionItem>,
)
    ensures
        items_view(final(out)@) == items_view(old(out)@) + concat_map(all_builtins(), builtin_fn(mk_ctx(ln as nat, ws as nat, we as nat, paren, word@, prefix@))),
{
    let ghost c = mk_ctx(ln as nat, ws as nat, we as nat, paren, word@, prefix@);
    let ghost s1 = items_view(out@);
    let bs = get_all_builtins();
    let ghost bv = bs@.map_values(|b: crate::docs::BuiltinFunction| b@);
    assert(bv =~= all_builtins());
    let mut i: usize = 0;
    while i < bs.len()
        invariant
            i <= bs.len(),
            bv == bs@.map_values(|b: crate::docs::BuiltinFunction| b@),
            c == mk_ctx(ln as nat, ws as nat, we as nat, paren, word@, prefix@),
            items_view(out@) == s1 + concat_map(bv.take(i as int), builtin_fn(c)),
        decreases bs.len() - i,
    {
        proof {
            lemma_concat_map_step(bv, i as int, builtin_fn(c));
        }
        let n = chars_of(bs[i].name);
        let ghost before = items_view(out@);
        if name_matches_of(word, &n) {
            out.push(builtin_item_of(&bs[i], ln, ws, we, paren));
            assert(items_view(out@) =~= before + builtin_fn(c)(bv[i as int]));
        } else {
            assert(builtin_fn(c)(bv[i as int]) =~= Seq::<ItemView>::empty());
        }
        i = i + 1;
    }
    proof {
        lemma_concat_map_all(bv, builtin_fn(c));
    }
}

/// Appends the candidates of the built-in variables.
fn push_variable_candidates(
    word: &Vec<char>,
    prefix: &Vec<char>,
    ln: usize,
    ws: usize,
    we: usize,
    paren: bool,
    out: &mut Vec<CompletionItem>,
)
    ensures
        items_view(final(out)@) == items_view(old(out)@) + concat_map(BUILTIN_VARIABLES@, bvar_fn(mk_ctx(ln as nat, ws as nat, we as nat, paren, word@, prefix@))),
{
    let ghost c = mk_ctx(ln as nat, ws as nat, we as nat, paren, word@, prefix@);
    let ghost s2 = items_view(out@);
    let mut i: usize = 0;
    while i < 26
        invariant
            i <= 26,
            c == mk_ctx(ln as nat, ws as nat, we as nat, paren, word@, prefix@),
            items_view(out@) == s2 + concat_map(BUILTIN_VARIABLES@.take(i as int), bvar_fn(c)),
        decreases 26 - i,
    {
        proof {
            lemma_concat_map_step(BUILTIN_VARIABLES@, i as int, bvar_fn(c));
        }
        let e = BUILTIN_VARIABLES[i];
        let n = chars_of(e.0);
        let ghost before = items_view(out@);
        if name_matches_of(word, &n) {
            let mut detail = cat(&chars_of(e.2), " ");
            extend(&mut detail, &chars_of(e.1));
            let sort = {
                let mut t = lit("04_");
                extend(&mut t, &n);
                t
            };
            out.push(simple_item_of(e.0, 6, &detail, e.3, &n, &sort, ln, ws, we));
            assert(items_view(out@) =~= before + bvar_fn(c)(e));
        } else {
            assert(bvar_fn(c)(e) =~= Seq::<ItemView>::empty());
        }
        i = i + 1;
    }
    proof {
        lemma_concat_map_all(BUILTIN_VARIABLES@, bvar_fn(c));
    }
}

/// Appends the candidates of the keywords.
fn push_keyword_candidates(
    word: &Vec<char>,
    prefix: &Vec<char>,
    ln: usize,
    ws: usize,
    we: usize,
    paren: bool,
    out: &mut Vec<CompletionItem>,
)
    ensures
        items_view(final(out)@) == items_view(old(out)@) + concat_map(BUILTIN_KEYWORDS@, keyword_fn(mk_ctx(ln as nat, ws as nat, we as nat, paren, word@, prefix@))),
{
    let ghost c = mk_ctx(ln as nat, ws as nat, we as nat, paren, word@, prefix@);
    let ghost s3 = items_view(out@);
    let mut i: usize = 0;
    while i < 45
        invariant
            i <= 45,
            c == mk_ctx(ln as nat, ws as nat, we as nat, paren, word@, prefix@),
            items_view(out@) == s3 + concat_map(BUILTIN_KEYWORDS@.take(i as int), keyword_fn(c)),
        decreases 45 - i,
    {
        proof {
            lemma_concat_map_step(BUILTIN_KEYWORDS@, i as int, keyword_fn(c));
        }
        let e = BUILTIN_KEYWORDS[i];
        let n = chars_of(e.0);
        let ghost before = items_view(out@);
        if name_matches_of(word, &n) {
            let sort = {
                let mut t = lit("05_");
                extend(&mut t, &n);
                t
            };
            out.push(simple_item_of(e.0, 14, &chars_of(e.1), e.2, &n, &sort, ln, ws, we));
            assert(items_view(out@) =~= before + keyword_fn(c)(e));
        } else {
            assert(keyword_fn(c)(e) =~= Seq::<ItemView>::empty());
        }
        i = i + 1;
    }
    proof {
        lemma_concat_map_all(BUILTIN_KEYWORDS@, keyword_fn(c));
    }
}

/// Appends the candidates of the directives.
fn push_directive_candidates(
    word: &Vec<char>,
    prefix: &Vec<char>,
    ln: usize,
    ws: usize,
    we: usize,
    paren: bool,
    out: &mut Vec<CompletionItem>,
)
    ensures
        items_view(final(out)@) == items_view(old(out)@) + concat_map(BUILTIN_DIRECTIVES@, directive_fn(mk_ctx(ln as nat, ws as nat, we as nat, paren, word@, prefix@))),
{
    let ghost c = mk_ctx(ln as nat, ws as nat, we as nat, paren, word@, prefix@);
    let ghost s4 = items_view(out@);
    let tp = trim_start_of(prefix);
    let hash = lit("#");
    let line_hash = starts_with_of(&tp, &hash);
    let word_hash = starts_with_of(word, &hash);
    let is_pre = line_hash || word_hash;
    let mut i: usize = 0;
    while i < 14
        invariant
            i <= 14,
            c == mk_ctx(ln as nat, ws as nat, we as nat, paren, word@, prefix@),
            tp@ == trim_start(prefix@),
            hash@ == "#"@,
            line_hash == starts_with(trim_start(prefix@), "#"@),
            word_hash == starts_with(word@, "#"@),
            is_pre == in_directive(c),
            items_view(out@) == s4 + concat_map(BUILTIN_DIRECTIVES@.take(i as int), directive_fn(c)),
        decreases 14 - i,
    {
        proof {
            lemma_concat_map_step(BUILTIN_DIRECTIVES@, i as int, directive_fn(c));
        }
        let e = BUILTIN_DIRECTIVES[i];
        let n = chars_of(e.0);
        let m = if is_pre {
            if word_hash {
                starts_with_ignore_case_of(&n, word)
            } else {
                starts_with_ignore_case_of(&n, &tp)
            }
        } else {
            word.len() > 0 && starts_with_ignore_case_of(&strip_hashes_of(&n), word)
        };
        let ghost before = items_view(out@);
        if m {
            let ins = if line_hash && !word_hash {
                strip_hashes_of(&n)
            } else {
                n
            };
            let sort = {
                let mut t = lit("06_");
                extend(&mut t, &chars_of(e.0));
                t
            };
            out.push(simple_item_of(e.0, 14, &chars_of(e.1), e.2, &ins, &sort, ln, ws, we));
            assert(items_view(out@) =~= before + directive_fn(c)(e));
        } else {
            assert(directive_fn(c)(e) =~= Seq::<ItemView>::empty());
        }
        i = i + 1;
    }
    proof {
        lemma_concat_map_all(BUILTIN_DIRECTIVES@, directive_fn(c));
    }
}

/// Appends the snippets that a non-empty word starts.
fn push_snippet_candidates(word: &Vec<char>, out: &mut Vec<CompletionItem>)
    ensures
        items_view(final(out)@) == items_view(old(out)@) + (if word@.len() > 0 {
            snippet_items(word@)
        } else {
            seq![]
        }),
{
    if word.len() > 0 {
        let snips = generate_snippet_completions(string_of(word).as_str());
        let mut k: usize = 0;
        let ghost s5 = items_view(out@);
        while k < snips.len()
            invariant
                k <= snips.len(),
                items_view(out@) == s5 + items_view(snips@).take(k as int),
            decreases snips.len() - k,
        {
            let ghost before = items_view(out@);
            let d = snips[k].duplicate();
            out.push(d);
            assert(items_view(out@) =~= before.push(snips@[k as int]@));
            assert(items_view(snips@).take(k + 1) =~= items_view(snips@).take(k as int).push(snips@[k as int]@));
            assert(items_view(out@) =~= s5 + items_view(snips@).take(k + 1));
            k = k + 1;
        }
        assert(items_view(snips@).take(snips.len() as int) =~= items_view(snips@));
    } else {
        assert(items_view(out@) =~= items_view(out@) + Seq::<ItemView>::empty());
    }
}

/// Appends the candidates of the built-in tables and the snippets.
fn push_builtin_candidates(
    word: &Vec<char>,
    prefix: &Vec<char>,
    ln: usize,
    ws: usize,
    we: usize,
    paren: bool,
    out: &mut Vec<CompletionItem>,
)
    ensures
        items_view(final(out)@) == items_view(old(out)@) + builtin_candidates(mk_ctx(ln as nat, ws as nat, we as nat, paren, word@, prefix@)),
{
    let ghost s0 = items_view(out@);
    push_type_candidates(word, prefix, ln, ws, we, paren, out);
    push_function_candidates(word, prefix, ln, ws, we, paren, out);
    push_variable_candidates(word, prefix, ln, ws, we, paren, out);
    push_keyword_candidates(word, prefix, ln, ws, we, paren, out);
    push_directive_candidates(word, prefix, ln, ws, we, paren, out);
    push_snippet_candidates(word, out);
    assert(items_view(out@) =~= s0 + builtin_candidates(mk_ctx(ln as nat, ws as nat, we as nat, paren, word@, prefix@)));
}

fn same_label(a: &CompletionItem, b: &CompletionItem) -> (r: bool)
    ensures
        r == (a@.label == b@.label),
{
    eq(&chars_of(a.label.as_str()), &chars_of(b.label.as_str()))
}

/// The candidates without repeated labels (the first of each label stays).
fn dedup_of(c: &Vec<CompletionItem>) -> (r: Vec<CompletionItem>)
    ensures
        items_view(r@) == dedup(items_view(c@)),
{
    let ghost cv = items_view(c@);
    let mut r: Vec<CompletionItem> = Vec::new();
    let mut i: usize = 0;
    assert(items_view(r@) =~= dedup(cv.take(0)));
    while i < c.len()
        invariant
            i <= c.len(),
            cv == items_view(c@),
            items_view(r@) == dedup(cv.take(i as int)),
        decreases c.len() - i,
    {
        let ghost t = cv.take(i + 1);
        assert(t.drop_last() =~= cv.take(i as int));
        assert(t.last() == c@[i as int]@);
        let mut j: usize = 0;
        let mut seen = false;
        while j < i
            invariant
                j <= i < c.len(),
                cv == items_view(c@),
                t == cv.take(i + 1),
                seen == exists|k: int| 0 <= k < j && (#[trigger] t[k]).label == t.last().label,
            decreases i - j,
        {
            assert(t[j as int] == c@[j as int]@);
            if same_label(&c[j], &c[i]) {
                seen = true;
            }
            j = j + 1;
        }
        if !seen {
            let ghost before = items_view(r@);
            r.push(c[i].duplicate());
            assert(items_view(r@) =~= before.push(t.last()));
        }
        i = i + 1;
    }
    assert(cv.take(c.len() as int) =~= cv);
    r
}


fn push_swizzle_members(d: usize, member: &Vec<char>, ln: usize, start: usize, end: usize, out: &mut Vec<CompletionItem>)
    ensures
        items_view(final(out)@) == items_view(old(out)@) + concat_map(
            swizzle_items(d),
            swizzle_fn(member@, ln as nat, start as nat, end as nat),
        ),
{
    let sw = generate_swizzle_completions(d);
    let ghost f = swizzle_fn(member@, ln as nat, start as nat, end as nat);
    let ghost sv = items_view(sw@);
    let ghost s0 = items_view(out@);
    let mut i: usize = 0;
    while i < sw.len()
        invariant
            i <= sw.len(),
            sv == items_view(sw@),
            f == swizzle_fn(member@, ln as nat, start as nat, end as nat),
            items_view(out@) == s0 + concat_map(sv.take(i as int), f),
        decreases sw.len() - i,
    {
        proof {
            lemma_concat_map_step(sv, i as int, f);
        }
        let label = chars_of(sw[i].label.as_str());
        let ghost before = items_view(out@);
        if member.len() == 0 || starts_with_ignore_case_of(&label, member) {
            let mut it = sw[i].duplicate();
            it.text_edit = edit_with(ln, start, end, &label);
            out.push(it);
            assert(items_view(out@) =~= before + f(sv[i as int]));
        } else {
            assert(f(sv[i as int]) =~= Seq::<ItemView>::empty());
        }
        i = i + 1;
    }
    proof {
        lemma_concat_map_all(sv, f);
    }
}

fn push_struct_members(
    members: &Vec<(String, String)>,
    member: &Vec<char>,
    ln: usize,
    start: usize,
    end: usize,
    out: &mut Vec<CompletionItem>,
)
    ensures
        items_view(final(out)@) == items_view(old(out)@) + concat_map(
            pairs_view(members@),
            member_fn(member@, ln as nat, start as nat, end as nat),
        ),
{
    let ghost f = member_fn(member@, ln as nat, start as nat, end as nat);
    let ghost mv = pairs_view(members@);
    let ghost s0 = items_view(out@);
    let mut i: usize = 0;
    while i < members.len()
        invariant
            i <= members.len(),
            mv == pairs_view(members@),
            f == member_fn(member@, ln as nat, start as nat, end as nat),
            items_view(out@) == s0 + concat_map(mv.take(i as int), f),
        decreases members.len() - i,
    {
        proof {
            lemma_concat_map_step(mv, i as int, f);
        }
        assert(mv[i as int] == (members@[i as int].0@, members@[i as int].1@));
        let name = chars_of(members[i].0.as_str());
        let ghost before = items_view(out@);
        if member.len() == 0 || starts_with_ignore_case_of(&name, member) {
            let mut sort = lit("00_");
            extend(&mut sort, &name);
            out.push(
                CompletionItem {
                    label: members[i].0.clone(),
                    kind: 5,
                    detail: Some(members[i].1.clone()),
                    documentation: Documentation::Absent,
                    insert_text: Some(members[i].0.clone()),
                    insert_text_format: Some(1),
                    text_edit: edit_with(ln, start, end, &name),
                    sort_text: Some(string_of(&sort)),
                },
            );
            assert(items_view(out@) =~= before + f(mv[i as int]));
        } else {
            assert(f(mv[i as int]) =~= Seq::<ItemView>::empty());
        }
        i = i + 1;
    }
    proof {
        lemma_concat_map_all(mv, f);
    }
}

/// The member completions after `expr.` (see [`member_completions`]).
fn member_completions_of(
    vars: &[VariableSymbol],
    doc: &str,
    doc_cache: &Vec<String>,
    files: &Vec<(String, String)>,
    expr: &str,
    member: &Vec<char>,
    ln: usize,
    start: usize,
    end: usize,
) -> (r: Vec<CompletionItem>)
    ensures
        items_view(r@) == member_completions(
            variables_view(vars@),
            doc@,
            crate::symbols::strings_view(doc_cache@),
            pairs_view(files@),
            expr@,
            member@,
            ln as nat,
            start as nat,
            end as nat,
        ),
{
    let mut out: Vec<CompletionItem> = Vec::new();
    assert(items_view(out@) =~= Seq::<ItemView>::empty());
    match infer_vector_dimension_from_vars(vars, doc, expr) {
        Some(d) => {
            push_swizzle_members(d, member, ln, start, end, &mut out);
        },
        None => {
            let members = extract_struct_members(vars, doc, doc_cache, files, expr);
            push_struct_members(&members, member, ln, start, end, &mut out);
        },
    }
    assert(items_view(out@) =~= Seq::<ItemView>::empty() + items_view(out@));
    out
}

/// The completion list for the cursor at `line_idx`, `col_idx` of `doc`,
/// given the user functions and variables of the document and its includes,
/// the open documents (`doc_cache`) and the files that define struct
/// variables (`files`: URI and text). Columns count characters.
pub fn handle_completion(
    doc: &str,
    line_idx: usize,
    col_idx: usize,
    user_funcs: &[FunctionSignature],
    user_vars: &[VariableSymbol],
    doc_cache: &Vec<String>,
    files: &Vec<(String, String)>,
) -> (r: Vec<CompletionItem>)
    ensures
        items_view(r@) == completion_list(
            doc@,
            line_idx as nat,
            col_idx as nat,
            variables_view(user_vars@),
            functions_view(user_funcs@),
            crate::symbols::strings_view(doc_cache@),
            pairs_view(files@),
        ),
{
    if is_in_comment_or_string(doc, line_idx, col_idx) {
        return Vec::new();
    }
    let d = chars_of(doc);
    let ls = lines_of_vec(&d);
    if line_idx >= ls.len() {
        return Vec::new();
    }
    assert(views(ls@)[line_idx as int] == ls@[line_idx as int]@);
    let line = &ls[line_idx];
    let safe = char_floor_of(line, col_idx);
    let prefix = slice_of(line, 0, safe);
    let da = dot_access_of(&prefix);
    let expr = chars_of(da.1.as_str());
    if da.0 && expr.len() > 0 {
        let member = chars_of(da.2.as_str());
        let start = byte_pos_of(line, da.3 + 1);
        let end = byte_pos_of(line, safe);
        return member_completions_of(user_vars, doc, doc_cache, files, da.1.as_str(), &member, line_idx, start, end);
    }
    let wp = word_prefix_of(&prefix);
    let fp = following_paren_of(line, safe);
    let ws = byte_pos_of(line, wp.0);
    let we = byte_pos_of(line, fp.0);
    let word = chars_of(wp.1.as_str());
    let ghost c = mk_ctx(line_idx as nat, ws as nat, we as nat, fp.1, word@, prefix@);
    assert(c == cursor_context(line@, line_idx as nat, safe as nat));
    let mut cands: Vec<CompletionItem> = Vec::new();
    assert(items_view(cands@) =~= Seq::<ItemView>::empty());
    push_user_candidates(user_vars, user_funcs, &word, &prefix, line_idx, ws, we, fp.1, &mut cands);
    push_builtin_candidates(&word, &prefix, line_idx, ws, we, fp.1, &mut cands);
    assert(items_view(cands@) =~= user_candidates(c, variables_view(user_vars@), functions_view(user_funcs@))
        + builtin_candidates(c));
    dedup_of(&cands)
}


/// A completion item of the external analyzer, as far as the enhancement reads it.
pub struct AnalyzerItem {
    pub label: Option<String>,
    pub kind: u64,
    pub insert_text: Option<String>,
}

/// Mathematical value of an [`AnalyzerItem`].
pub struct AnalyzerView {
    pub label: Option<Seq<char>>,
    pub kind: u64,
    pub insert_text: Option<Seq<char>>,
}

impl View for AnalyzerItem {
    type V = AnalyzerView;

    open spec fn view(&self) -> AnalyzerView {
        AnalyzerView {
            label: crate::symbols::opt_view(self.label),
            kind: self.kind,
            insert_text: crate::symbols::opt_view(self.insert_text),
        }
    }
}

pub open spec fn analyzer_view(v: Seq<AnalyzerItem>) -> Seq<AnalyzerView> {
    v.map_values(|a: AnalyzerItem| a@)
}

/// One entry of an enhanced completion list: an item of this server, or the
/// analyzer's item at `index` (with label `label`), possibly with a new
/// insert text and format.
pub enum Entry {
    Own(CompletionItem),
    Analyzer { index: usize, label: String, insert: Option<(String, u32)> },
}

/// Mathematical value of an [`Entry`].
pub enum EntryView {
    Own(ItemView),
    Analyzer { index: nat, label: Seq<char>, insert: Option<(Seq<char>, u32)> },
}

impl View for Entry {
    type V = EntryView;

    open spec fn view(&self) -> EntryView {
        match self {
            Entry::Own(it) => EntryView::Own(it@),
            Entry::Analyzer { index, label, insert } => EntryView::Analyzer {
                index: *index as nat,
                label: label@,
                insert: match insert {
                    Some(p) => Some((p.0@, p.1)),
                    None => None,
                },
            },
        }
    }
}

pub open spec fn entries_view(v: Seq<Entry>) -> Seq<EntryView> {
    v.map_values(|e: Entry| e@)
}

/// The label of an entry.
pub open spec fn entry_label(e: EntryView) -> Seq<char> {
    match e {
        EntryView::Own(it) => it.label,
        EntryView::Analyzer { label, .. } => label,
    }
}

/// The entries without those whose label an earlier entry has.
pub open spec fn dedup_entries(s: Seq<EntryView>) -> Seq<EntryView>
    decreases s.len(),
{
    if s.len() == 0 {
        seq![]
    } else if exists|j: int| 0 <= j < s.len() - 1 && entry_label(#[trigger] s[j]) == entry_label(s.last()) {
        dedup_entries(s.drop_last())
    } else {
        dedup_entries(s.drop_last()).push(s.last())
    }
}

/// The new insert text of an analyzer function item: a call snippet when no
/// `(` follows and the text does not end in `)`; the bare label when a `(`
/// follows and the item had no insert text.
pub open spec fn analyzer_insert(a: AnalyzerView, label: Seq<char>, paren: bool) -> Option<(Seq<char>, u32)> {
    if a.kind != 3 {
        None
    } else {
        let cur = match a.insert_text {
            Some(t) => t,
            None => label,
        };
        if !crate::text::ends_with(cur, ")"@) && !paren {
            Some((label + "($1)$0"@, 2))
        } else if paren && a.insert_text is None {
            Some((label, 1))
        } else {
            None
        }
    }
}

/// The entry of the analyzer's item `k`: none without a label, or after a
/// dot for keywords (14), types (25) and snippets (15), and for swizzles
/// on what is no vector.
pub open spec fn analyzer_entry(a: AnalyzerView, k: nat, is_dot: bool, is_vector: bool, paren: bool) -> Seq<EntryView> {
    match a.label {
        None => seq![],
        Some(l) => if is_dot && (a.kind == 14 || a.kind == 25 || a.kind == 15 || (!is_vector
            && crate::vectors::swizzle_pattern(l))) {
            seq![]
        } else {
            seq![EntryView::Analyzer { index: k, label: l, insert: analyzer_insert(a, l, paren) }]
        },
    }
}

pub open spec fn analyzer_fn(raw: Seq<AnalyzerView>, is_dot: bool, is_vector: bool, paren: bool) -> spec_fn(int) -> Seq<EntryView> {
    |k: int| analyzer_entry(raw[k], k as nat, is_dot, is_vector, paren)
}

pub open spec fn own_fn() -> spec_fn(ItemView) -> Seq<EntryView> {
    |it: ItemView| seq![EntryView::Own(it)]
}

/// What becomes of the analyzer's completion list.
pub enum Enhancement {
    /// The analyzer gave nothing: answer with this server's own list.
    Own,
    /// The cursor is past the last line: keep the analyzer's items as they are.
    Unchanged,
    /// The enhanced list.
    Entries(Vec<Entry>),
}

/// Mathematical value of an [`Enhancement`].
pub enum EnhancementView {
    Own,
    Unchanged,
    Entries(Seq<EntryView>),
}

impl View for Enhancement {
    type V = EnhancementView;

    open spec fn view(&self) -> EnhancementView {
        match self {
            Enhancement::Own => EnhancementView::Own,
            Enhancement::Unchanged => EnhancementView::Unchanged,
            Enhancement::Entries(v) => EnhancementView::Entries(entries_view(v@)),
        }
    }
}

/// The analyzer's completion list enhanced: after `expr.`, this server's
/// swizzles or struct members first; else its user symbols first; then the
/// analyzer's items (filtered after a dot, function items given call
/// snippets); then the snippets that the word starts; each label once.
pub open spec fn enhanced(
    doc: Seq<char>,
    ln: nat,
    col: nat,
    raw: Seq<AnalyzerView>,
    vars: Seq<VariableView>,
    funcs: Seq<FunctionView>,
    cache: Seq<Seq<char>>,
    files: Seq<(Seq<char>, Seq<char>)>,
) -> EnhancementView {
    if raw.len() == 0 {
        EnhancementView::Own
    } else if ln >= lines_of(doc).len() {
        EnhancementView::Unchanged
    } else {
        let line = lines_of(doc)[ln as int];
        let safe = char_floor(line, col);
        let c = cursor_context(line, ln, safe);
        let da = dot_access(c.prefix);
        let member_access = da.0 && da.1.len() > 0;
        let own = if member_access {
            member_completions(vars, doc, cache, files, da.1, da.2, ln, byte_col(line, da.3 + 1int), byte_col(line, safe as int))
        } else if !da.0 {
            user_candidates(c, vars, funcs)
        } else {
            seq![]
        };
        let is_vector = member_access && inferred_dimension(vars, doc, da.1) is Some;
        let an = concat_map(Seq::new(raw.len(), |k: int| k), analyzer_fn(raw, da.0, is_vector, c.paren));
        let sn = if !da.0 && c.word.len() > 0 {
            snippet_items(c.word)
        } else {
            seq![]
        };
        EnhancementView::Entries(dedup_entries(concat_map(own, own_fn()) + an + concat_map(sn, own_fn())))
    }
}


fn push_own_entries(items: Vec<CompletionItem>, out: &mut Vec<Entry>)
    ensures
        entries_view(final(out)@) == entries_view(old(out)@) + concat_map(items_view(items@), own_fn()),
{
    let ghost iv = items_view(items@);
    let ghost s0 = entries_view(out@);
    let mut i: usize = 0;
    while i < items.len()
        invariant
            i <= items.len(),
            iv == items_view(items@),
            entries_view(out@) == s0 + concat_map(iv.take(i as int), own_fn()),
        decreases items.len() - i,
    {
        proof {
            lemma_concat_map_step(iv, i as int, own_fn());
        }
        let ghost before = entries_view(out@);
        out.push(Entry::Own(items[i].duplicate()));
        assert(entries_view(out@) =~= before + own_fn()(iv[i as int]));
        i = i + 1;
    }
    proof {
        lemma_concat_map_all(iv, own_fn());
    }
}

fn analyzer_insert_of(a: &AnalyzerItem, label: &Vec<char>, paren: bool) -> (r: Option<(String, u32)>)
    ensures
        match analyzer_insert(a@, label@, paren) {
            Some(p) => r matches Some(q) && q.0@ == p.0 && q.1 == p.1,
            None => r is None,
        },
{
    if a.kind != 3 {
        return None;
    }
    let cur = match &a.insert_text {
        Some(t) => chars_of(t.as_str()),
        None => slice_of(label, 0, label.len()),
    };
    assert(label@.subrange(0, label@.len() as int) =~= label@);
    if !crate::text::ends_with_of(&cur, &lit(")")) && !paren {
        Some((string_of(&cat(label, "($1)$0")), 2))
    } else if paren && a.insert_text.is_none() {
        Some((string_of(label), 1))
    } else {
        None
    }
}

fn push_analyzer_entries(raw: &Vec<AnalyzerItem>, is_dot: bool, is_vector: bool, paren: bool, out: &mut Vec<Entry>)
    ensures
        entries_view(final(out)@) == entries_view(old(out)@) + concat_map(
            Seq::new(raw@.len(), |k: int| k),
            analyzer_fn(analyzer_view(raw@), is_dot, is_vector, paren),
        ),
{
    let ghost ks = Seq::new(raw@.len(), |k: int| k);
    let ghost f = analyzer_fn(analyzer_view(raw@), is_dot, is_vector, paren);
    let ghost s0 = entries_view(out@);
    let mut i: usize = 0;
    while i < raw.len()
        invariant
            i <= raw.len(),
            ks == Seq::new(raw@.len(), |k: int| k),
            f == analyzer_fn(analyzer_view(raw@), is_dot, is_vector, paren),
            entries_view(out@) == s0 + concat_map(ks.take(i as int), f),
        decreases raw.len() - i,
    {
        proof {
            lemma_concat_map_step(ks, i as int, f);
        }
        assert(ks[i as int] == i as int);
        assert(analyzer_view(raw@)[i as int] == raw@[i as int]@);
        let a = &raw[i];
        let ghost before = entries_view(out@);
        match &a.label {
            None => {
                assert(f(i as int) =~= Seq::<EntryView>::empty());
            },
            Some(l) => {
                let k = a.kind;
                if is_dot && (k == 14 || k == 25 || k == 15 || (!is_vector && crate::vectors::is_swizzle_pattern(
                    l.as_str(),
                ))) {
                    assert(f(i as int) =~= Seq::<EntryView>::empty());
                } else {
                    let lc = chars_of(l.as_str());
                    let ins = analyzer_insert_of(a, &lc, paren);
                    out.push(Entry::Analyzer { index: i, label: l.clone(), insert: ins });
                    assert(entries_view(out@) =~= before + f(i as int));
                }
            },
        }
        i = i + 1;
    }
    proof {
        lemma_concat_map_all(ks, f);
    }
}

fn entry_label_of(e: &Entry) -> (r: Vec<char>)
    ensures
        r@ == entry_label(e@),
{
    match e {
        Entry::Own(it) => chars_of(it.label.as_str()),
        Entry::Analyzer { label, .. } => chars_of(label.as_str()),
    }
}

fn entry_duplicate(e: &Entry) -> (r: Entry)
    ensures
        r@ == e@,
{
    match e {
        Entry::Own(it) => Entry::Own(it.duplicate()),
        Entry::Analyzer { index, label, insert } => Entry::Analyzer {
            index: *index,
            label: label.clone(),
            insert: match insert {
                Some(p) => Some((p.0.clone(), p.1)),
                None => None,
            },
        },
    }
}

fn dedup_entries_of(c: &Vec<Entry>) -> (r: Vec<Entry>)
    ensures
        entries_view(r@) == dedup_entries(entries_view(c@)),
{
    let ghost cv = entries_view(c@);
    let mut r: Vec<Entry> = Vec::new();
    let mut i: usize = 0;
    assert(entries_view(r@) =~= dedup_entries(cv.take(0)));
    while i < c.len()
        invariant
            i <= c.len(),
            cv == entries_view(c@),
            entries_view(r@) == dedup_entries(cv.take(i as int)),
        decreases c.len() - i,
    {
        let ghost t = cv.take(i + 1);
        assert(t.drop_last() =~= cv.take(i as int));
        assert(t.last() == c@[i as int]@);
        let li = entry_label_of(&c[i]);
        let mut j: usize = 0;
        let mut seen = false;
        while j < i
            invariant
                j <= i < c.len(),
                cv == entries_view(c@),
                t == cv.take(i + 1),
                li@ == entry_label(t.last()),
                seen == exists|k: int| 0 <= k < j && entry_label(#[trigger] t[k]) == entry_label(t.last()),
            decreases i - j,
        {
            assert(t[j as int] == c@[j as int]@);
            let lj = entry_label_of(&c[j]);
            if eq(&lj, &li) {
                seen = true;
            }
            j = j + 1;
        }
        if !seen {
            let ghost before = entries_view(r@);
            r.push(entry_duplicate(&c[i]));
            assert(entries_view(r@) =~= before.push(t.last()));
        }
        i = i + 1;
    }
    assert(cv.take(c.len() as int) =~= cv);
    r
}

/// Enhances the completion list of the external analyzer (see [`enhanced`]),
/// given the user functions and variables of the document and its includes,
/// the open documents (`doc_cache`) and the files that define struct
/// variables (`files`: URI and text).
pub fn enhance_analyzer_completions(
    doc: &str,
    line_idx: usize,
    col_idx: usize,
    raw: &Vec<AnalyzerItem>,
    user_funcs: &[FunctionSignature],
    user_vars: &[VariableSymbol],
    doc_cache: &Vec<String>,
    files: &Vec<(String, String)>,
) -> (r: Enhancement)
    ensures
        r@ == enhanced(
            doc@,
            line_idx as nat,
            col_idx as nat,
            analyzer_view(raw@),
            variables_view(user_vars@),
            functions_view(user_funcs@),
            crate::symbols::strings_view(doc_cache@),
            pairs_view(files@),
        ),
{
    if raw.len() == 0 {
        return Enhancement::Own;
    }
    let d = chars_of(doc);
    let ls = lines_of_vec(&d);
    if line_idx >= ls.len() {
        return Enhancement::Unchanged;
    }
    assert(views(ls@)[line_idx as int] == ls@[line_idx as int]@);
    let line = &ls[line_idx];
    let safe = char_floor_of(line, col_idx);
    let prefix = slice_of(line, 0, safe);
    let fp = following_paren_of(line, safe);
    let wp = word_prefix_of(&prefix);
    let ws = byte_pos_of(line, wp.0);
    let we = byte_pos_of(line, fp.0);
    let word = chars_of(wp.1.as_str());
    let ghost c = mk_ctx(line_idx as nat, ws as nat, we as nat, fp.1, word@, prefix@);
    assert(c == cursor_context(line@, line_idx as nat, safe as nat));
    let da = dot_access_of(&prefix);
    let expr = chars_of(da.1.as_str());
    let member_access = da.0 && expr.len() > 0;
    let mut own: Vec<CompletionItem> = Vec::new();
    assert(items_view(own@) =~= Seq::<ItemView>::empty());
    let mut is_vector = false;
    if member_access {
        let member = chars_of(da.2.as_str());
        let start = byte_pos_of(line, da.3 + 1);
        let end = byte_pos_of(line, safe);
        own = member_completions_of(user_vars, doc, doc_cache, files, da.1.as_str(), &member, line_idx, start, end);
        is_vector = infer_vector_dimension_from_vars(user_vars, doc, da.1.as_str()).is_some();
    } else if !da.0 {
        push_user_candidates(user_vars, user_funcs, &word, &prefix, line_idx, ws, we, fp.1, &mut own);
        assert(items_view(own@) =~= user_candidates(c, variables_view(user_vars@), functions_view(user_funcs@)));
    }
    let mut entries: Vec<Entry> = Vec::new();
    assert(entries_view(entries@) =~= Seq::<EntryView>::empty());
    push_own_entries(own, &mut entries);
    push_analyzer_entries(raw, da.0, is_vector, fp.1, &mut entries);
    let mut snips: Vec<CompletionItem> = Vec::new();
    if !da.0 && word.len() > 0 {
        snips = generate_snippet_completions(wp.1.as_str());
    }
    assert(items_view(snips@) == (if !da.0 && word@.len() > 0 {
        snippet_items(word@)
    } else {
        seq![]
    }));
    push_own_entries(snips, &mut entries);
    Enhancement::Entries(dedup_entries_of(&entries))
}

} // verus!
