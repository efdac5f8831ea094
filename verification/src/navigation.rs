//! Signature help, hover text and go-to-definition for the word or call at
//! the cursor.
use vstd::prelude::*;
use crate::complete::{concat_map, lemma_concat_map_all, lemma_concat_map_step};
use crate::docs::{FunctionDocView, builtin_at, builtin_index, lookup_builtin_function};
use crate::lexical::{enclosing_call, find_enclosing_call, ident_pred, in_comment_or_string, is_in_comment_or_string};
use crate::symbols::{FunctionSignature, FunctionView, functions_view, lit, opt_view};
use crate::text::{
    byte_len, char_floor, char_floor_of, char_is_alphanumeric, chars_of, eq, extend, lead, lines_of, lines_of_vec, slice_of, string_of,
    on_boundary, trail, trim_end, trim_end_of, views,
};
use crate::variables::{VariableSymbol, VariableView, variables_view};
use crate::vectors::var_index;

verus! {

/// One signature shown by signature help.
pub struct SignatureInformation {
    pub label: String,
    pub documentation: String,
    pub parameters: Vec<String>,
}

/// The answer to a signature help request.
pub struct SignatureHelp {
    pub signatures: Vec<SignatureInformation>,
    pub active_signature: usize,
    pub active_parameter: usize,
}

/// Mathematical value of a [`SignatureInformation`].
pub struct SignatureView {
    pub label: Seq<char>,
    pub documentation: Seq<char>,
    pub parameters: Seq<Seq<char>>,
}

/// Mathematical value of a [`SignatureHelp`].
pub struct HelpView {
    pub signatures: Seq<SignatureView>,
    pub active_signature: nat,
    pub active_parameter: nat,
}

impl View for SignatureInformation {
    type V = SignatureView;

    open spec fn view(&self) -> SignatureView {
        SignatureView {
            label: self.label@,
            documentation: self.documentation@,
            parameters: crate::symbols::strings_view(self.parameters@),
        }
    }
}

impl View for SignatureHelp {
    type V = HelpView;

    open spec fn view(&self) -> HelpView {
        HelpView {
            signatures: self.signatures@.map_values(|s: SignatureInformation| s@),
            active_signature: self.active_signature as nat,
            active_parameter: self.active_parameter as nat,
        }
    }
}

/// The signature chosen: the last one that has more parameters than the
/// active parameter's index, else the first.
pub open spec fn active_signature(sigs: Seq<SignatureView>, active: nat) -> nat
    decreases sigs.len(),
{
    if sigs.len() == 0 {
        0
    } else if active < sigs.last().parameters.len() {
        (sigs.len() - 1) as nat
    } else {
        active_signature(sigs.drop_last(), active)
    }
}

/// The signatures of a built-in function, one per overload.
pub open spec fn builtin_signatures(f: FunctionDocView) -> Seq<SignatureView> {
    f.overloads.map_values(
        |o: crate::docs::OverloadView| SignatureView { label: o.label, documentation: f.description, parameters: o.params },
    )
}

/// The documentation of a user function in signature help.
pub open spec fn user_sig_doc(f: FunctionView) -> Seq<char> {
    match (f.doc, f.source) {
        (Some(d), Some(s)) => "**Source:** `"@ + s + "`\n\n"@ + d,
        (Some(d), None) => d,
        (None, Some(s)) => "**Source:** `"@ + s + "`"@,
        (None, None) => "User-defined function `"@ + f.name + "`"@,
    }
}

pub open spec fn user_sig_fn(name: Seq<char>) -> spec_fn(FunctionView) -> Seq<SignatureView> {
    |f: FunctionView|
        if f.name == name {
            seq![SignatureView { label: f.label, documentation: user_sig_doc(f), parameters: f.parameters }]
        } else {
            seq![]
        }
}

/// Signature help at line `ln`, column `col`: the call around the cursor
/// (none in a comment or string), shown from the built-in documentation,
/// else from the user functions of that name.
pub open spec fn signature_help(doc: Seq<char>, ln: nat, col: nat, funcs: Seq<FunctionView>) -> Option<HelpView> {
    if in_comment_or_string(doc, ln, col) {
        None
    } else {
        match enclosing_call(doc, ln, col) {
            None => None,
            Some(call) => match builtin_index(call.0, 0) {
                Some(i) => Some(
                    HelpView {
                        signatures: builtin_signatures(builtin_at(i)),
                        active_signature: active_signature(builtin_signatures(builtin_at(i)), call.1),
                        active_parameter: call.1,
                    },
                ),
                None => {
                    let sigs = concat_map(funcs, user_sig_fn(call.0));
                    if sigs.len() > 0 {
                        Some(HelpView { signatures: sigs, active_signature: active_signature(sigs, call.1), active_parameter: call.1 })
                    } else {
                        None
                    }
                },
            },
        }
    }
}

fn strings_duplicate(v: &Vec<String>) -> (r: Vec<String>)
    ensures
        crate::symbols::strings_view(r@) == crate::symbols::strings_view(v@),
{
    let mut ps: Vec<String> = Vec::new();
    let mut i: usize = 0;
    while i < v.len()
        invariant
            i <= v.len(),
            crate::symbols::strings_view(ps@) == crate::symbols::strings_view(v@).take(i as int),
        decreases v.len() - i,
    {
        let c = v[i].clone();
        let ghost before = crate::symbols::strings_view(ps@);
        ps.push(c);
        assert(crate::symbols::strings_view(ps@) =~= before.push(v@[i as int]@));
        assert(crate::symbols::strings_view(v@).take(i + 1) =~= crate::symbols::strings_view(v@).take(i as int).push(
            v@[i as int]@,
        ));
        i = i + 1;
    }
    assert(crate::symbols::strings_view(v@).take(v.len() as int) =~= crate::symbols::strings_view(v@));
    ps
}

fn active_signature_of(sigs: &Vec<SignatureInformation>, active: usize) -> (r: usize)
    ensures
        r == active_signature(sigs@.map_values(|s: SignatureInformation| s@), active as nat),
{
    let ghost sv = sigs@.map_values(|s: SignatureInformation| s@);
    let mut r: usize = 0;
    let mut i: usize = 0;
    assert(sv.take(0).len() == 0);
    while i < sigs.len()
        invariant
            i <= sigs.len(),
            sv == sigs@.map_values(|s: SignatureInformation| s@),
            r == active_signature(sv.take(i as int), active as nat),
        decreases sigs.len() - i,
    {
        assert(sv.take(i + 1).drop_last() =~= sv.take(i as int));
        assert(sv.take(i + 1).last() == sigs@[i as int]@);
        if active < sigs[i].parameters.len() {
            r = i;
        }
        i = i + 1;
    }
    assert(sv.take(sigs.len() as int) =~= sv);
    r
}

fn user_sig_doc_of(f: &FunctionSignature) -> (r: String)
    ensures
        r@ == user_sig_doc(f@),
{
    match (&f.doc, &f.source) {
        (Some(d), Some(s)) => {
            let mut v = lit("**Source:** `");
            extend(&mut v, &chars_of(s.as_str()));
            extend(&mut v, &lit("`\n\n"));
            extend(&mut v, &chars_of(d.as_str()));
            string_of(&v)
        },
        (Some(d), None) => d.clone(),
        (None, Some(s)) => {
            let mut v = lit("**Source:** `");
            extend(&mut v, &chars_of(s.as_str()));
            extend(&mut v, &lit("`"));
            string_of(&v)
        },
        (None, None) => {
            let mut v = lit("User-defined function `");
            extend(&mut v, &chars_of(f.name.as_str()));
            extend(&mut v, &lit("`"));
            string_of(&v)
        },
    }
}

/// Signature help for the call around the cursor (see [`signature_help`]),
/// given the user functions of the document and its includes.
pub fn handle_signature_help(
    doc: &str,
    line_idx: usize,
    col_idx: usize,
    user_funcs: &[FunctionSignature],
) -> (r: Option<SignatureHelp>)
    ensures
        match signature_help(doc@, line_idx as nat, col_idx as nat, functions_view(user_funcs@)) {
            Some(h) => r matches Some(x) && x@ == h,
            None => r is None,
        },
{
    if is_in_comment_or_string(doc, line_idx, col_idx) {
        return None;
    }
    let call = match find_enclosing_call(doc, line_idx, col_idx) {
        Some(c) => c,
        None => {
            return None;
        },
    };
    let active = call.1;
    match lookup_builtin_function(call.0.as_str()) {
        Some(f) => {
            let ghost fv = f@;
            let ghost target = builtin_signatures(fv);
            let mut sigs: Vec<SignatureInformation> = Vec::new();
            let mut i: usize = 0;
            while i < f.overloads.len()
                invariant
                    i <= f.overloads.len(),
                    fv == f@,
                    target == builtin_signatures(fv),
                    sigs@.map_values(|s: SignatureInformation| s@) == target.take(i as int),
                decreases f.overloads.len() - i,
            {
                assert(fv.overloads[i as int] == f.overloads@[i as int]@);
                let ghost before = sigs@.map_values(|s: SignatureInformation| s@);
                sigs.push(
                    SignatureInformation {
                        label: string_of(&chars_of(f.overloads[i].label)),
                        documentation: string_of(&chars_of(f.description)),
                        parameters: strings_duplicate(&f.overloads[i].params),
                    },
                );
                assert(sigs@.map_values(|s: SignatureInformation| s@) =~= before.push(target[i as int]));
                assert(target.take(i + 1) =~= target.take(i as int).push(target[i as int]));
                i = i + 1;
            }
            assert(target.take(f.overloads.len() as int) =~= target);
            let act = active_signature_of(&sigs, active);
            Some(SignatureHelp { signatures: sigs, active_signature: act, active_parameter: active })
        },
        None => {
            let ghost fs = functions_view(user_funcs@);
            let name = chars_of(call.0.as_str());
            let ghost g = user_sig_fn(name@);
            let mut sigs: Vec<SignatureInformation> = Vec::new();
            let mut i: usize = 0;
            assert(sigs@.map_values(|s: SignatureInformation| s@) =~= concat_map(fs.take(0), g));
            while i < user_funcs.len()
                invariant
                    i <= user_funcs.len(),
                    fs == functions_view(user_funcs@),
                    g == user_sig_fn(name@),
                    sigs@.map_values(|s: SignatureInformation| s@) == concat_map(fs.take(i as int), g),
                decreases user_funcs.len() - i,
            {
                proof {
                    lemma_concat_map_step(fs, i as int, g);
                }
                assert(fs[i as int] == user_funcs@[i as int]@);
                let f = &user_funcs[i];
                let ghost before = sigs@.map_values(|s: SignatureInformation| s@);
                if eq(&chars_of(f.name.as_str()), &name) {
                    sigs.push(
                        SignatureInformation {
                            label: f.label.clone(),
                            documentation: user_sig_doc_of(f),
                            parameters: strings_duplicate(&f.parameters),
                        },
                    );
                    assert(sigs@.map_values(|s: SignatureInformation| s@) =~= before + g(fs[i as int]));
                } else {
                    assert(g(fs[i as int]) =~= Seq::<SignatureView>::empty());
                }
                i = i + 1;
            }
            proof {
                lemma_concat_map_all(fs, g);
            }
            if sigs.len() > 0 {
                let act = active_signature_of(&sigs, active);
                Some(SignatureHelp { signatures: sigs, active_signature: act, active_parameter: active })
            } else {
                None
            }
        },
    }
}


/// The start and end character indices of the identifier under (or just
/// before) the cursor at byte column `col`, taken back to the last character
/// boundary at or before it (and clamped to the line).
pub open spec fn cursor_word(line: Seq<char>, col: nat) -> (nat, nat) {
    let safe = char_floor(line, col);
    ((safe - trail(line.take(safe as int), ident_pred())) as nat, safe + lead(line.skip(safe as int), ident_pred()))
}

/// Index of the first function (from `i` on) named `name`.
pub open spec fn func_index(fs: Seq<FunctionView>, name: Seq<char>, i: int) -> Option<int>
    decreases fs.len() - i,
{
    if i < 0 || i >= fs.len() {
        None
    } else if fs[i].name == name {
        Some(i)
    } else {
        func_index(fs, name, i + 1)
    }
}

/// Where a symbol was defined, as a hover line.
pub open spec fn source_info(src: Option<Seq<char>>) -> Seq<char> {
    match src {
        Some(s) => "*Defined in `"@ + s + "`*\n\n"@,
        None => seq![],
    }
}

/// A symbol's comment, or nothing.
pub open spec fn doc_text(d: Option<Seq<char>>) -> Seq<char> {
    match d {
        Some(t) => t,
        None => seq![],
    }
}

/// The overload labels, each followed by a newline.
pub open spec fn overload_lines(os: Seq<crate::docs::OverloadView>) -> Seq<char>
    decreases os.len(),
{
    if os.len() == 0 {
        seq![]
    } else {
        overload_lines(os.drop_last()) + os.last().label + "\n"@
    }
}

/// The hover text of a built-in function.
pub open spec fn builtin_hover(f: FunctionDocView) -> Seq<char> {
    "```glsl\n"@ + trim_end(overload_lines(f.overloads)) + "\n```\n\n"@ + f.description
}

/// The hover text of a user function.
pub open spec fn function_hover(f: FunctionView) -> Seq<char> {
    "```glsl\n"@ + f.label + "\n```\n\n"@ + source_info(f.source) + doc_text(f.doc)
}

/// The hover text of a user variable or symbol.
pub open spec fn variable_hover(v: VariableView) -> Seq<char> {
    trim_end(
        "```glsl\n"@ + v.qualifier + " "@ + v.var_type + " "@ + v.name + "\n```\n\n"@ + source_info(v.source)
            + doc_text(v.doc),
    )
}

/// The hover text (markdown) for the word at line `ln`, column `col`: none in
/// a comment or string, past the last line or off a word; else the built-in
/// function, user function or user variable of that name, in that order.
pub open spec fn hover_text(
    doc: Seq<char>,
    ln: nat,
    col: nat,
    funcs: Seq<FunctionView>,
    vars: Seq<VariableView>,
) -> Option<Seq<char>> {
    if in_comment_or_string(doc, ln, col) || ln >= lines_of(doc).len() {
        None
    } else {
        let line = lines_of(doc)[ln as int];
        let b = cursor_word(line, col);
        let word = line.subrange(b.0 as int, b.1 as int);
        if word.len() == 0 {
            None
        } else {
            match builtin_index(word, 0) {
                Some(i) => Some(builtin_hover(builtin_at(i))),
                None => match func_index(funcs, word, 0) {
                    Some(k) => Some(function_hover(funcs[k])),
                    None => match var_index(vars, word, 0) {
                        Some(k) => Some(variable_hover(vars[k])),
                        None => None,
                    },
                },
            }
        }
    }
}

fn cursor_word_of(line: &Vec<char>, col: usize) -> (r: (usize, usize))
    ensures
        r.0 == cursor_word(line@, col as nat).0,
        r.1 == cursor_word(line@, col as nat).1,
        r.0 <= r.1 <= line.len(),
{
    let safe = char_floor_of(line, col);
    let mut a: usize = 0;
    while a < safe && (char_is_alphanumeric(line[safe - 1 - a]) || line[safe - 1 - a] == '_')
        invariant
            a <= safe <= line.len(),
            forall|j: int| safe - a <= j < safe ==> #[trigger] ident_pred()(line@.take(safe as int)[j]),
        decreases safe - a,
    {
        assert(line@.take(safe as int)[safe - 1 - a] == line@[safe - 1 - a]);
        a = a + 1;
    }
    proof {
        if a < safe {
            assert(line@.take(safe as int)[safe - 1 - a] == line@[safe - 1 - a]);
        }
        crate::text::lemma_trail(line@.take(safe as int), ident_pred(), a as int);
    }
    let mut b: usize = 0;
    while safe + b < line.len() && (char_is_alphanumeric(line[safe + b]) || line[safe + b] == '_')
        invariant
            safe <= line.len(),
            safe + b <= line.len(),
            forall|j: int| 0 <= j < b ==> #[trigger] ident_pred()(line@.skip(safe as int)[j]),
        decreases line.len() - safe - b,
    {
        assert(line@.skip(safe as int)[b as int] == line@[safe + b]);
        b = b + 1;
    }
    proof {
        if safe + b < line.len() {
            assert(line@.skip(safe as int)[b as int] == line@[safe + b]);
        }
        crate::text::lemma_lead(line@.skip(safe as int), ident_pred(), b as int);
    }
    (safe - a, safe + b)
}

fn func_index_of(funcs: &[FunctionSignature], name: &Vec<char>) -> (r: Option<usize>)
    ensures
        match r {
            Some(k) => func_index(functions_view(funcs@), name@, 0) == Some(k as int) && k < funcs@.len(),
            None => func_index(functions_view(funcs@), name@, 0) is None,
        },
{
    let mut i: usize = 0;
    while i < funcs.len()
        invariant
            i <= funcs.len(),
            func_index(functions_view(funcs@), name@, 0) == func_index(functions_view(funcs@), name@, i as int),
        decreases funcs.len() - i,
    {
        assert(functions_view(funcs@)[i as int] == funcs@[i as int]@);
        if eq(&chars_of(funcs[i].name.as_str()), name) {
            return Some(i);
        }
        i = i + 1;
    }
    None
}

fn var_index_in(vars: &[VariableSymbol], name: &Vec<char>) -> (r: Option<usize>)
    ensures
        match r {
            Some(k) => var_index(variables_view(vars@), name@, 0) == Some(k as int) && k < vars@.len(),
            None => var_index(variables_view(vars@), name@, 0) is None,
        },
{
    let mut i: usize = 0;
    while i < vars.len()
        invariant
            i <= vars.len(),
            var_index(variables_view(vars@), name@, 0) == var_index(variables_view(vars@), name@, i as int),
        decreases vars.len() - i,
    {
        assert(variables_view(vars@)[i as int] == vars@[i as int]@);
        if eq(&chars_of(vars[i].name.as_str()), name) {
            return Some(i);
        }
        i = i + 1;
    }
    None
}

fn source_info_of(src: &Option<String>) -> (r: Vec<char>)
    ensures
        r@ == source_info(opt_view(*src)),
{
    match src {
        Some(s) => {
            let mut v = lit("*Defined in `");
            extend(&mut v, &chars_of(s.as_str()));
            extend(&mut v, &lit("`*\n\n"));
            v
        },
        None => Vec::new(),
    }
}

fn doc_text_of(d: &Option<String>) -> (r: Vec<char>)
    ensures
        r@ == doc_text(opt_view(*d)),
{
    match d {
        Some(t) => chars_of(t.as_str()),
        None => Vec::new(),
    }
}

/// The hover text for the word at the cursor (see [`hover_text`]), given the
/// user functions and variables of the document and its includes.
pub fn handle_hover(
    doc: &str,
    line_idx: usize,
    col_idx: usize,
    user_funcs: &[FunctionSignature],
    user_vars: &[VariableSymbol],
) -> (r: Option<String>)
    ensures
        opt_view(r) == hover_text(doc@, line_idx as nat, col_idx as nat, functions_view(user_funcs@), variables_view(user_vars@)),
{
    if is_in_comment_or_string(doc, line_idx, col_idx) {
        return None;
    }
    let d = chars_of(doc);
    let ls = lines_of_vec(&d);
    if line_idx >= ls.len() {
        return None;
    }
    assert(views(ls@)[line_idx as int] == ls@[line_idx as int]@);
    let line = &ls[line_idx];
    let b = cursor_word_of(line, col_idx);
    let word = slice_of(line, b.0, b.1);
    if word.len() == 0 {
        return None;
    }
    let ws = string_of(&word);
    match lookup_builtin_function(ws.as_str()) {
        Some(f) => {
            let ghost os = f@.overloads;
            let mut lines: Vec<char> = Vec::new();
            let mut i: usize = 0;
            assert(os.take(0).len() == 0);
            while i < f.overloads.len()
                invariant
                    i <= f.overloads.len(),
                    os == f@.overloads,
                    lines@ == overload_lines(os.take(i as int)),
                decreases f.overloads.len() - i,
            {
                assert(os.take(i + 1).drop_last() =~= os.take(i as int));
                assert(os.take(i + 1).last() == f.overloads@[i as int]@);
                extend(&mut lines, &chars_of(f.overloads[i].label));
                extend(&mut lines, &lit("\n"));
                i = i + 1;
            }
            assert(os.take(f.overloads.len() as int) =~= os);
            let mut m = lit("```glsl\n");
            extend(&mut m, &trim_end_of(&lines));
            extend(&mut m, &lit("\n```\n\n"));
            extend(&mut m, &chars_of(f.description));
            return Some(string_of(&m));
        },
        None => {},
    }
    match func_index_of(user_funcs, &word) {
        Some(k) => {
            assert(functions_view(user_funcs@)[k as int] == user_funcs@[k as int]@);
            let f = &user_funcs[k];
            let mut m = lit("```glsl\n");
            extend(&mut m, &chars_of(f.label.as_str()));
            extend(&mut m, &lit("\n```\n\n"));
            extend(&mut m, &source_info_of(&f.source));
            extend(&mut m, &doc_text_of(&f.doc));
            return Some(string_of(&m));
        },
        None => {},
    }
    match var_index_in(user_vars, &word) {
        Some(k) => {
            assert(variables_view(user_vars@)[k as int] == user_vars@[k as int]@);
            let v = &user_vars[k];
            let mut m = lit("```glsl\n");
            extend(&mut m, &chars_of(v.qualifier.as_str()));
            extend(&mut m, &lit(" "));
            extend(&mut m, &chars_of(v.var_type.as_str()));
            extend(&mut m, &lit(" "));
            extend(&mut m, &chars_of(v.name.as_str()));
            extend(&mut m, &lit("\n```\n\n"));
            extend(&mut m, &source_info_of(&v.source));
            extend(&mut m, &doc_text_of(&v.doc));
            Some(string_of(&trim_end_of(&m)))
        },
        None => None,
    }
}

/// A place in a file: its URI, line, and start and end columns.
pub struct Location {
    pub uri: String,
    pub line: usize,
    pub start: usize,
    pub end: usize,
}

/// Mathematical value of a [`Location`].
pub struct LocationView {
    pub uri: Seq<char>,
    pub line: nat,
    pub start: nat,
    pub end: nat,
}

impl View for Location {
    type V = LocationView;

    open spec fn view(&self) -> LocationView {
        LocationView { uri: self.uri@, line: self.line as nat, start: self.start as nat, end: self.end as nat }
    }
}

/// The place of the definition of the word at line `ln`, column `col`: the
/// first user function of that name that records its file, else the first
/// user variable of that name that does; none in a comment or string, past
/// the last line or off a word.
pub open spec fn definition(
    doc: Seq<char>,
    ln: nat,
    col: nat,
    funcs: Seq<FunctionView>,
    vars: Seq<VariableView>,
) -> Option<LocationView> {
    if in_comment_or_string(doc, ln, col) || ln >= lines_of(doc).len() {
        None
    } else {
        let line = lines_of(doc)[ln as int];
        let b = cursor_word(line, col);
        let word = line.subrange(b.0 as int, b.1 as int);
        if b.0 >= b.1 {
            None
        } else {
            let fk = func_index(funcs, word, 0);
            if fk is Some && funcs[fk.unwrap()].file_uri is Some {
                let f = funcs[fk.unwrap()];
                Some(LocationView { uri: f.file_uri.unwrap(), line: f.line, start: f.col, end: f.col + byte_len(f.name) })
            } else {
                let vk = var_index(vars, word, 0);
                if vk is Some && vars[vk.unwrap()].file_uri is Some {
                    let v = vars[vk.unwrap()];
                    Some(LocationView { uri: v.file_uri.unwrap(), line: v.line, start: v.col, end: v.col + byte_len(v.name) })
                } else {
                    None
                }
            }
        }
    }
}

/// The definition of the word at the cursor (see [`definition`]), given the
/// user functions and variables of the document and its includes. Every
/// symbol's column plus the length of its name fits in a `usize`.
pub fn handle_definition(
    doc: &str,
    line_idx: usize,
    col_idx: usize,
    user_funcs: &[FunctionSignature],
    user_vars: &[VariableSymbol],
) -> (r: Option<Location>)
    requires
        forall|k: int| 0 <= k < user_funcs@.len() ==> #[trigger] user_funcs@[k].col + byte_len(user_funcs@[k].name@) <= usize::MAX,
        forall|k: int| 0 <= k < user_vars@.len() ==> #[trigger] user_vars@[k].col + byte_len(user_vars@[k].name@) <= usize::MAX,
        !in_comment_or_string(doc@, line_idx as nat, col_idx as nat) && line_idx < lines_of(doc@).len() ==> {
            let line = lines_of(doc@)[line_idx as int];
            col_idx >= byte_len(line) || on_boundary(line, col_idx as nat)
        },
    ensures
        match definition(doc@, line_idx as nat, col_idx as nat, functions_view(user_funcs@), variables_view(user_vars@)) {
            Some(l) => r matches Some(x) && x@ == l,
            None => r is None,
        },
{
    if is_in_comment_or_string(doc, line_idx, col_idx) {
        return None;
    }
    let d = chars_of(doc);
    let ls = lines_of_vec(&d);
    if line_idx >= ls.len() {
        return None;
    }
    assert(views(ls@)[line_idx as int] == ls@[line_idx as int]@);
    let line = &ls[line_idx];
    let b = cursor_word_of(line, col_idx);
    if b.0 >= b.1 {
        return None;
    }
    let word = slice_of(line, b.0, b.1);
    match func_index_of(user_funcs, &word) {
        Some(k) => {
            assert(functions_view(user_funcs@)[k as int] == user_funcs@[k as int]@);
            let f = &user_funcs[k];
            match &f.file_uri {
                Some(u) => {
                    let n = f.name.as_str().len();
                    return Some(Location { uri: u.clone(), line: f.line, start: f.col, end: f.col + n });
                },
                None => {},
            }
        },
        None => {},
    }
    match var_index_in(user_vars, &word) {
        Some(k) => {
            assert(variables_view(user_vars@)[k as int] == user_vars@[k as int]@);
            let v = &user_vars[k];
            match &v.file_uri {
                Some(u) => {
                    let n = v.name.as_str().len();
                    Some(Location { uri: u.clone(), line: v.line, start: v.col, end: v.col + n })
                },
                None => None,
            }
        },
        None => None,
    }
}

} // verus!
