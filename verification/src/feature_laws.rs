//! Properties of what the language features answer: the dimension of a
//! swizzled member, hover over built-ins, call completions before an
//! existing parenthesis, the active parameter of a call, and color swatches.
use vstd::prelude::*;
use crate::docs::{builtin_at, builtin_index};
use crate::lexical::in_comment_or_string;
use crate::navigation::{cursor_word, hover_text};
use crate::symbols::FunctionView;
use crate::text::{ends_with, lines_of, starts_with};
use crate::variables::VariableView;
use crate::vectors::{inferred_dimension, segments};

verus! {

/// After a member access whose last member is two to four of the letters
/// `xyzwrgbastpq`, the expression is a vector with as many components as
/// that member has letters.
pub proof fn law_swizzle_member_dimension(vs: Seq<VariableView>, doc: Seq<char>, expr: Seq<char>)
    requires
        segments(expr).len() >= 2,
        2 <= segments(expr).last().len() <= 4,
        forall|k: int|
            0 <= k < segments(expr).last().len() ==> {
                let ch = #[trigger] segments(expr).last()[k];
                ch == 'x' || ch == 'y' || ch == 'z' || ch == 'w' || ch == 'r' || ch == 'g' || ch == 'b' || ch
                    == 'a' || ch == 's' || ch == 't' || ch == 'p' || ch == 'q'
            },
    ensures
        inferred_dimension(vs, doc, expr) == Some(segments(expr).last().len() as usize),
{
    let last = segments(expr).last();
    assert(crate::vectors::all_swizzle_letters(last));
}

proof fn lemma_builtin_index_found(name: Seq<char>, i: int, k: int)
    requires
        0 <= i <= k < 71,
        builtin_at(k).name == name,
    ensures
        builtin_index(name, i) matches Some(j) && i <= j <= k && builtin_at(j).name == name,
    decreases k - i,
{
    if builtin_at(i).name != name {
        lemma_builtin_index_found(name, i + 1, k);
    }
}

/// Outside comments and strings, hovering the name of a built-in function
/// shows a GLSL code block with its overloads, ending with the built-in's
/// documentation (of the first built-in of that name).
pub proof fn law_hover_builtin(
    doc: Seq<char>,
    ln: nat,
    col: nat,
    funcs: Seq<FunctionView>,
    vars: Seq<VariableView>,
    i: int,
)
    requires
        !in_comment_or_string(doc, ln, col),
        ln < lines_of(doc).len(),
        0 <= i < 71,
        cursor_word(lines_of(doc)[ln as int], col).0 < cursor_word(lines_of(doc)[ln as int], col).1,
        lines_of(doc)[ln as int].subrange(
            cursor_word(lines_of(doc)[ln as int], col).0 as int,
            cursor_word(lines_of(doc)[ln as int], col).1 as int,
        ) == builtin_at(i).name,
    ensures
        hover_text(doc, ln, col, funcs, vars) matches Some(h) && exists|j: int|
            0 <= j < 71 && #[trigger] builtin_at(j).name == builtin_at(i).name && starts_with(h, "```glsl\n"@)
                && ends_with(h, builtin_at(j).description),
{
    reveal_strlit("```glsl\n");
    let name = builtin_at(i).name;
    lemma_builtin_index_found(name, 0, i);
    let j = builtin_index(name, 0).unwrap();
    let f = builtin_at(j);
    let h = crate::navigation::builtin_hover(f);
    let a = "```glsl\n"@ + crate::text::trim_end(crate::navigation::overload_lines(f.overloads)) + "\n```\n\n"@;
    assert(h == a + f.description);
    assert(h.skip(h.len() - f.description.len()) =~= f.description);
    assert(h.take(8) =~= "```glsl\n"@);
    let line = lines_of(doc)[ln as int];
    let b = cursor_word(line, col);
    crate::text::lemma_char_floor_bounds(line, col);
    let safe = crate::text::char_floor(line, col);
    crate::text::lemma_lead_facts(line.skip(safe as int), crate::lexical::ident_pred());
    crate::text::lemma_trail_facts(line.take(safe as int), crate::lexical::ident_pred());
    let word = line.subrange(b.0 as int, b.1 as int);
    assert(word.len() > 0);
    assert(hover_text(doc, ln, col, funcs, vars) == Some(h));
    assert(builtin_at(j).name == name);
}

/// A function completion inserts just its label, and a constructor
/// completion (labelled `name(...)`) just its name, as plain text.
pub open spec fn inserts_bare_name(it: crate::completion::ItemView) -> bool {
    &&& (it.kind == 3 ==> it.insert_text == Some(it.label) && it.insert_text_format == Some(1u32))
    &&& (it.kind == 4 ==> it.insert_text is Some && it.label == it.insert_text.unwrap() + "(...)"@
        && it.insert_text_format == Some(1u32))
}

pub open spec fn all_bare(s: Seq<crate::completion::ItemView>) -> bool {
    forall|k: int| 0 <= k < s.len() ==> inserts_bare_name(#[trigger] s[k])
}

proof fn lemma_bare_append(a: Seq<crate::completion::ItemView>, b: Seq<crate::completion::ItemView>)
    requires
        all_bare(a),
        all_bare(b),
    ensures
        all_bare(a + b),
{
    assert forall|k: int| 0 <= k < (a + b).len() implies inserts_bare_name(#[trigger] (a + b)[k]) by {
        if k < a.len() {
            assert((a + b)[k] == a[k]);
        } else {
            assert((a + b)[k] == b[k - a.len()]);
        }
    }
}

proof fn lemma_bare_concat<A>(s: Seq<A>, f: spec_fn(A) -> Seq<crate::completion::ItemView>)
    requires
        forall|k: int| 0 <= k < s.len() ==> all_bare(f(#[trigger] s[k])),
    ensures
        all_bare(crate::complete::concat_map(s, f)),
    decreases s.len(),
{
    if s.len() > 0 {
        assert forall|k: int| 0 <= k < s.drop_last().len() implies all_bare(f(#[trigger] s.drop_last()[k])) by {
            assert(s.drop_last()[k] == s[k]);
        }
        lemma_bare_concat(s.drop_last(), f);
        assert(all_bare(f(s[s.len() - 1])));
        lemma_bare_append(crate::complete::concat_map(s.drop_last(), f), f(s.last()));
    }
}

proof fn lemma_bare_dedup(s: Seq<crate::completion::ItemView>)
    requires
        all_bare(s),
    ensures
        all_bare(crate::complete::dedup(s)),
    decreases s.len(),
{
    if s.len() > 0 {
        assert forall|k: int| 0 <= k < s.drop_last().len() implies inserts_bare_name(#[trigger] s.drop_last()[k]) by {
            assert(s.drop_last()[k] == s[k]);
        }
        lemma_bare_dedup(s.drop_last());
        assert(inserts_bare_name(s[s.len() - 1]));
        let d = crate::complete::dedup(s.drop_last());
        assert forall|k: int| 0 <= k < d.push(s.last()).len() implies inserts_bare_name(#[trigger] d.push(s.last())[k]) by {
            if k < d.len() {
                assert(d.push(s.last())[k] == d[k]);
            }
        }
    }
}

proof fn lemma_bare_candidates(c: crate::complete::CursorContext, vars: Seq<VariableView>, funcs: Seq<FunctionView>)
    requires
        c.paren,
    ensures
        all_bare(crate::complete::user_candidates(c, vars, funcs) + crate::complete::builtin_candidates(c)),
{
    reveal_strlit("(...)");
    assert forall|k: int| 0 <= k < vars.len() implies all_bare(crate::complete::var_fn(c)(#[trigger] vars[k])) by {
        let v = vars[k];
        assert(crate::complete::var_kind(v.qualifier) != 3 && crate::complete::var_kind(v.qualifier) != 4);
    }
    lemma_bare_concat(vars, crate::complete::var_fn(c));
    lemma_bare_concat(funcs, crate::complete::func_fn(c));
    let ty = crate::docs::BUILTIN_TYPES@;
    assert forall|k: int| 0 <= k < ty.len() implies all_bare(crate::complete::type_fn(c)(#[trigger] ty[k])) by {
        let e = ty[k];
        let it = crate::complete::ctor_item(e, c.ln, c.word_start, c.word_end, c.paren);
        assert(inserts_bare_name(it));
        let r = crate::complete::type_fn(c)(e);
        assert forall|m: int| 0 <= m < r.len() implies inserts_bare_name(#[trigger] r[m]) by {
            if m == 1 {
                assert(r[1] == it);
            }
        }
    }
    lemma_bare_concat(ty, crate::complete::type_fn(c));
    lemma_bare_concat(crate::complete::all_builtins(), crate::complete::builtin_fn(c));
    lemma_bare_concat(crate::docs::BUILTIN_VARIABLES@, crate::complete::bvar_fn(c));
    lemma_bare_concat(crate::docs::BUILTIN_KEYWORDS@, crate::complete::keyword_fn(c));
    lemma_bare_concat(crate::docs::BUILTIN_DIRECTIVES@, crate::complete::directive_fn(c));
    let sn: Seq<crate::completion::ItemView> = if c.word.len() > 0 {
        crate::completion::snippet_items(c.word)
    } else {
        seq![]
    };
    assert forall|k: int| 0 <= k < sn.len() implies inserts_bare_name(#[trigger] sn[k]) by {
        assert(sn[k].kind == 15);
    }
    let u = crate::complete::user_candidates(c, vars, funcs);
    lemma_bare_append(crate::complete::concat_map(vars, crate::complete::var_fn(c)), crate::complete::concat_map(funcs, crate::complete::func_fn(c)));
    let b1 = crate::complete::concat_map(ty, crate::complete::type_fn(c));
    let b2 = crate::complete::concat_map(crate::complete::all_builtins(), crate::complete::builtin_fn(c));
    let b3 = crate::complete::concat_map(crate::docs::BUILTIN_VARIABLES@, crate::complete::bvar_fn(c));
    let b4 = crate::complete::concat_map(crate::docs::BUILTIN_KEYWORDS@, crate::complete::keyword_fn(c));
    let b5 = crate::complete::concat_map(crate::docs::BUILTIN_DIRECTIVES@, crate::complete::directive_fn(c));
    lemma_bare_append(b1, b2);
    lemma_bare_append(b1 + b2, b3);
    lemma_bare_append(b1 + b2 + b3, b4);
    lemma_bare_append(b1 + b2 + b3 + b4, b5);
    lemma_bare_append(b1 + b2 + b3 + b4 + b5, sn);
    lemma_bare_append(u, crate::complete::builtin_candidates(c));
}

/// When the next non-blank character after the word at the cursor is `(`,
/// every function or constructor offered by a completion (outside a member
/// access) inserts just its name as plain text, never a snippet with
/// parentheses.
pub proof fn law_paren_follows_bare_name(
    doc: Seq<char>,
    ln: nat,
    col: nat,
    vars: Seq<VariableView>,
    funcs: Seq<FunctionView>,
    cache: Seq<Seq<char>>,
    files: Seq<(Seq<char>, Seq<char>)>,
)
    requires
        ln < lines_of(doc).len(),
        crate::completion::following_paren(
            lines_of(doc)[ln as int],
            crate::text::char_floor(lines_of(doc)[ln as int], col),
        ).1,
        !({
            let line = lines_of(doc)[ln as int];
            let da = crate::completion::dot_access(line.take(crate::text::char_floor(line, col) as int));
            da.0 && da.1.len() > 0
        }),
    ensures
        all_bare(crate::complete::completion_list(doc, ln, col, vars, funcs, cache, files)),
{
    let line = lines_of(doc)[ln as int];
    let safe = crate::text::char_floor(line, col);
    let c = crate::complete::cursor_context(line, ln, safe);
    lemma_bare_candidates(c, vars, funcs);
    lemma_bare_dedup(crate::complete::user_candidates(c, vars, funcs) + crate::complete::builtin_candidates(c));
}

/// The number of `ch` in `s[lo..j]`.
pub open spec fn occ(s: Seq<char>, lo: int, j: int, ch: char) -> nat
    decreases j - lo,
{
    if j <= lo {
        0
    } else {
        occ(s, lo, j - 1, ch) + if s[j - 1] == ch {
            1nat
        } else {
            0nat
        }
    }
}

/// In `s[lo..j]` every kind of bracket is closed as often as it is opened.
pub open spec fn level_zero(s: Seq<char>, lo: int, j: int) -> bool {
    occ(s, lo, j, '(') == occ(s, lo, j, ')') && occ(s, lo, j, '[') == occ(s, lo, j, ']') && occ(s, lo, j, '{')
        == occ(s, lo, j, '}')
}

/// No prefix of `s[lo..hi]` closes a bracket that it did not open.
pub open spec fn never_overclosed(s: Seq<char>, lo: int, hi: int) -> bool {
    forall|j: int|
        lo <= j <= hi ==> occ(s, lo, j, '(') >= occ(s, lo, j, ')') && occ(s, lo, j, '[') >= occ(s, lo, j, ']')
            && #[trigger] occ(s, lo, j, '{') >= occ(s, lo, j, '}')
}

/// The commas of `s[lo..hi]` that lie at the outermost level: with every
/// bracket opened before them (from `lo` on) closed again.
pub open spec fn top_level_commas(s: Seq<char>, lo: int, hi: int) -> nat
    decreases hi - lo,
{
    if hi <= lo {
        0
    } else {
        top_level_commas(s, lo, hi - 1) + if s[hi - 1] == ',' && level_zero(s, lo, hi - 1) {
            1nat
        } else {
            0nat
        }
    }
}

proof fn lemma_top_level_step(s: Seq<char>, lo: int, i: int)
    requires
        lo <= i,
    ensures
        top_level_commas(s, lo, i + 1) == top_level_commas(s, lo, i) + if s[i] == ',' && level_zero(s, lo, i) {
            1nat
        } else {
            0nat
        },
        forall|ch: char| #[trigger] occ(s, lo, i + 1, ch) == occ(s, lo, i, ch) + if s[i] == ch {
            1nat
        } else {
            0nat
        },
{
}

proof fn lemma_commas_scan(s: Seq<char>, lo: int, i: int, hi: int)
    requires
        0 <= lo <= i <= hi <= s.len(),
        never_overclosed(s, lo, hi),
    ensures
        crate::lexical::count_commas(
            s,
            i,
            hi,
            (occ(s, lo, i, '(') - occ(s, lo, i, ')')) as nat,
            (occ(s, lo, i, '[') - occ(s, lo, i, ']')) as nat,
            (occ(s, lo, i, '{') - occ(s, lo, i, '}')) as nat,
        ) + top_level_commas(s, lo, i) == top_level_commas(s, lo, hi),
    decreases hi - i,
{
    if i < hi {
        lemma_top_level_step(s, lo, i);
        assert(occ(s, lo, i, '{') >= occ(s, lo, i, '}'));
        assert(occ(s, lo, i + 1, '{') >= occ(s, lo, i + 1, '}'));
        let _ = occ(s, lo, i + 1, '(');
        let _ = occ(s, lo, i + 1, ')');
        let _ = occ(s, lo, i + 1, '[');
        let _ = occ(s, lo, i + 1, ']');
        let _ = occ(s, lo, i + 1, '}');
        lemma_commas_scan(s, lo, i + 1, hi);
    }
}

proof fn lemma_back_scan_bound(s: Seq<char>, idx: int, in_str: bool, d: nat, bd: nat, cd: nat)
    ensures
        crate::lexical::back_scan(s, idx, in_str, d, bd, cd) matches Some(o) ==> 0 <= o < idx,
    decreases idx,
{
    if idx > 0 && idx <= s.len() {
        let j = idx - 1;
        lemma_back_scan_bound(s, j, true, d, bd, cd);
        lemma_back_scan_bound(s, j, false, d, bd, cd);
        lemma_back_scan_bound(s, j, false, d + 1, bd, cd);
        lemma_back_scan_bound(s, j, false, d, bd + 1, cd);
        lemma_back_scan_bound(s, j, false, d, bd, cd + 1);
        if d > 0 {
            lemma_back_scan_bound(s, j, false, (d - 1) as nat, bd, cd);
        }
        lemma_back_scan_bound(s, j, false, d, if bd > 0 { (bd - 1) as nat } else { bd }, cd);
        if cd > 0 {
            lemma_back_scan_bound(s, j, false, d, bd, (cd - 1) as nat);
        }
    }
}

/// The active parameter of the call around the cursor is the number of
/// commas between the call's `(` and the cursor at the call's own level:
/// commas inside nested parentheses, brackets or braces do not count
/// (where no bracket in between is closed without having been opened).
pub proof fn law_active_parameter(s: Seq<char>, l: nat, c: nat)
    requires
        crate::lexical::cursor_offset(s, l, c) <= s.len(),
    ensures
        crate::lexical::enclosing_call(s, l, c) matches Some((name, k)) ==> {
            let off = crate::lexical::cursor_offset(s, l, c);
            let o = crate::lexical::back_scan(s, off, false, 0, 0, 0).unwrap();
            never_overclosed(s, o + 1, off) ==> k == top_level_commas(s, o + 1, off)
        },
{
    let off = crate::lexical::cursor_offset(s, l, c);
    match crate::lexical::back_scan(s, off, false, 0, 0, 0) {
        None => {},
        Some(o) => {
            lemma_back_scan_bound(s, off, false, 0, 0, 0);
            if never_overclosed(s, o + 1, off) {
                assert(occ(s, o + 1, o + 1, '(') == 0);
                assert(occ(s, o + 1, o + 1, ')') == 0);
                assert(occ(s, o + 1, o + 1, '[') == 0);
                assert(occ(s, o + 1, o + 1, ']') == 0);
                assert(occ(s, o + 1, o + 1, '{') == 0);
                assert(occ(s, o + 1, o + 1, '}') == 0);
                assert(top_level_commas(s, o + 1, o + 1) == 0);
                lemma_commas_scan(s, o + 1, o + 1, off);
            }
        },
    }
}

proof fn lemma_find_append(a: Seq<char>, x: Seq<char>, p: Seq<char>, k: int)
    requires
        0 <= k,
        p.len() > 0,
        !x.contains(p.last()),
    ensures
        crate::text::find_from(a + x, p, k) == crate::text::find_from(a, p, k),
    decreases (a + x).len() + 1 - k,
{
    let s = a + x;
    if k + p.len() > s.len() {
    } else {
        if k + p.len() > a.len() {
            let last = k + p.len() - 1;
            if crate::text::match_at(s, p, k) {
                assert(s.subrange(k, k + p.len())[p.len() - 1] == s[last]);
                assert(s[last] == x[last - a.len()]);
                assert(x.contains(p.last()));
            }
        } else {
            assert(s.subrange(k, k + p.len()) =~= a.subrange(k, k + p.len()));
        }
        lemma_find_append(a, x, p, k + 1);
    }
}

proof fn lemma_no_char_skip(x: Seq<char>, k: int, ch: char)
    requires
        0 <= k <= x.len(),
        !x.contains(ch),
    ensures
        !x.skip(k).contains(ch),
{
    if x.skip(k).contains(ch) {
        let j = choose|j: int| 0 <= j < x.skip(k).len() && x.skip(k)[j] == ch;
        assert(x[k + j] == ch);
    }
}

proof fn lemma_line_candidates_append(l: Seq<char>, x: Seq<char>, ln: nat, from: int)
    requires
        !x.contains('('),
        !x.contains(')'),
    ensures
        crate::colors::line_candidates(l + x, ln, from) == crate::colors::line_candidates(l, ln, from),
    decreases l.len() + x.len() - from,
{
    let lx = l + x;
    reveal_strlit("vec4(");
    reveal_strlit("vec3(");
    reveal_strlit(")");
    assert("vec4("@.last() == '(');
    assert("vec3("@.last() == '(');
    assert(")"@.last() == ')');
    if from < 0 || from >= lx.len() {
    } else if from >= l.len() {
        let rest = lx.skip(from);
        assert(rest =~= Seq::<char>::empty() + x.skip(from - l.len()));
        lemma_no_char_skip(x, from - l.len(), '(');
        lemma_find_append(Seq::<char>::empty(), x.skip(from - l.len()), "vec4("@, 0);
        lemma_find_append(Seq::<char>::empty(), x.skip(from - l.len()), "vec3("@, 0);
        assert(crate::colors::first_constructor(rest) is None);
    } else {
        assert(lx.skip(from) =~= l.skip(from) + x);
        lemma_find_append(l.skip(from), x, "vec4("@, 0);
        lemma_find_append(l.skip(from), x, "vec3("@, 0);
        crate::text::lemma_find_from_facts(l.skip(from), "vec4("@, 0);
        crate::text::lemma_find_from_facts(l.skip(from), "vec3("@, 0);
        match crate::colors::first_constructor(l.skip(from)) {
            None => {},
            Some(fc) => {
                let start = from + fc.0;
                let args_start = start + 5;
                assert(args_start <= l.len());
                assert(lx.skip(args_start) =~= l.skip(args_start) + x);
                lemma_find_append(l.skip(args_start), x, ")"@, 0);
                crate::text::lemma_find_from_facts(l.skip(args_start), ")"@, 0);
                assert(lx.take(start) =~= l.take(start));
                match crate::text::find(l.skip(args_start), ")"@) {
                    Some(ci) => {
                        let end = args_start + ci + 1;
                        assert(end <= l.len());
                        assert(lx.subrange(args_start, args_start + ci) =~= l.subrange(args_start, args_start + ci));
                        assert(lx.take(end) =~= l.take(end));
                        lemma_line_candidates_append(l, x, ln, end);
                    },
                    None => {
                        lemma_line_candidates_append(l, x, ln, args_start);
                    },
                }
            },
        }
    }
}

proof fn lemma_text_candidates_append(ls: Seq<Seq<char>>, i: int, x: Seq<char>, j: int)
    requires
        0 <= i < ls.len(),
        !x.contains('('),
        !x.contains(')'),
        !starts_with(crate::text::trim(ls[i]), "//"@),
        !starts_with(crate::text::trim(ls[i] + x), "//"@),
    ensures
        crate::colors::text_candidates(ls.update(i, ls[i] + x), j) == crate::colors::text_candidates(ls, j),
    decreases ls.len() - j,
{
    if 0 <= j < ls.len() {
        lemma_text_candidates_append(ls, i, x, j + 1);
        if j == i {
            lemma_line_candidates_append(ls[i], x, i as nat, 0);
        }
    }
}

/// Text appended to a line after its code, such as a trailing `// ...`
/// comment without parentheses, takes away none of the line's color
/// candidates (as long as the line itself does not start with `//`).
pub proof fn law_trailing_comment_keeps_colors(ls: Seq<Seq<char>>, i: int, x: Seq<char>)
    requires
        0 <= i < ls.len(),
        !x.contains('('),
        !x.contains(')'),
        !starts_with(crate::text::trim(ls[i]), "//"@),
        !starts_with(crate::text::trim(ls[i] + x), "//"@),
    ensures
        crate::colors::text_candidates(ls.update(i, ls[i] + x), 0) == crate::colors::text_candidates(ls, 0),
{
    lemma_text_candidates_append(ls, i, x, 0);
}

} // verus!
