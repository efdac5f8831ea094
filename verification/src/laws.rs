//! Properties of the library that hold across its operations.
use vstd::prelude::*;
use crate::complete::{
    completion_list, dedup, dedup_entries, entry_label, enhanced, EnhancementView, EntryView,
};
use crate::completion::{decimal, digit_char, ItemView};
use crate::config::{
    configured_header, default_header, percent_decode, path_uri, resolved_header, uri_path, version_header,
    TargetApi,
};
use crate::diagnostics::{all_digits, digits_value, parse_u32};
use crate::format::{cleaned_line, clean_from, format_scan, format_step, FormatState};
use crate::includes::{advance, pending, request_for, FrameView, RequestView};
use crate::lexical::in_comment_or_string;
use crate::navigation::{definition, hover_text, signature_help};
use crate::settings::{engine_of, reconfigured, target_of, SettingsView, ValuesView};
use crate::symbols::FunctionView;
use crate::text::{ascii_lower, eq_ignore_ascii_case, ends_with, starts_with};
use crate::variables::VariableView;
use crate::vectors::{piece_fields, statement_fields, struct_fields, token_fields};

verus! {

/// No two items of a list have the same label.
pub open spec fn distinct_labels(s: Seq<ItemView>) -> bool {
    forall|i: int, j: int| 0 <= i < j < s.len() ==> (#[trigger] s[i]).label != (#[trigger] s[j]).label
}

/// No two entries of a list have the same label.
pub open spec fn distinct_entry_labels(s: Seq<EntryView>) -> bool {
    forall|i: int, j: int| 0 <= i < j < s.len() ==> entry_label(#[trigger] s[i]) != entry_label(#[trigger] s[j])
}

proof fn lemma_dedup_labels(s: Seq<ItemView>)
    ensures
        distinct_labels(dedup(s)),
        forall|k: int| 0 <= k < dedup(s).len() ==> exists|j: int| 0 <= j < s.len() && (#[trigger] s[j]).label == (
        #[trigger] dedup(s)[k]).label,
    decreases s.len(),
{
    if s.len() > 0 {
        let p = s.drop_last();
        lemma_dedup_labels(p);
        assert forall|k: int| 0 <= k < dedup(p).len() implies exists|j: int| 0 <= j < s.len() && (#[trigger] s[j]).label
            == (#[trigger] dedup(p)[k]).label by {
            let j = choose|j: int| 0 <= j < p.len() && (#[trigger] p[j]).label == dedup(p)[k].label;
            assert(s[j] == p[j]);
        }
        if !(exists|j: int| 0 <= j < s.len() - 1 && (#[trigger] s[j]).label == s.last().label) {
            let d = dedup(p);
            assert(dedup(s) == d.push(s.last()));
            assert forall|k: int| 0 <= k < d.len() implies (#[trigger] d[k]).label != s.last().label by {
                let j = choose|j: int| 0 <= j < p.len() && (#[trigger] p[j]).label == d[k].label;
                assert(s[j] == p[j]);
            }
            assert(s[s.len() - 1] == s.last());
        }
    }
}

proof fn lemma_dedup_entry_labels(s: Seq<EntryView>)
    ensures
        distinct_entry_labels(dedup_entries(s)),
        forall|k: int| 0 <= k < dedup_entries(s).len() ==> exists|j: int| 0 <= j < s.len() && entry_label(#[trigger] s[j]) == entry_label(
        #[trigger] dedup_entries(s)[k]),
    decreases s.len(),
{
    if s.len() > 0 {
        let p = s.drop_last();
        lemma_dedup_entry_labels(p);
        assert forall|k: int| 0 <= k < dedup_entries(p).len() implies exists|j: int| 0 <= j < s.len() && entry_label(#[trigger] s[j])
            == entry_label(#[trigger] dedup_entries(p)[k]) by {
            let j = choose|j: int| 0 <= j < p.len() && entry_label(#[trigger] p[j]) == entry_label(dedup_entries(p)[k]);
            assert(s[j] == p[j]);
        }
        if !(exists|j: int| 0 <= j < s.len() - 1 && entry_label(#[trigger] s[j]) == entry_label(s.last())) {
            let d = dedup_entries(p);
            assert(dedup_entries(s) == d.push(s.last()));
            assert forall|k: int| 0 <= k < d.len() implies entry_label(#[trigger] d[k]) != entry_label(s.last()) by {
                let j = choose|j: int| 0 <= j < p.len() && entry_label(#[trigger] p[j]) == entry_label(d[k]);
                assert(s[j] == p[j]);
            }
            assert(s[s.len() - 1] == s.last());
        }
    }
}

/// Outside member access, a completion list names each label once.
pub proof fn law_completion_labels_distinct(
    doc: Seq<char>,
    ln: nat,
    col: nat,
    vars: Seq<VariableView>,
    funcs: Seq<FunctionView>,
    cache: Seq<Seq<char>>,
    files: Seq<(Seq<char>, Seq<char>)>,
)
    requires
        ln < crate::text::lines_of(doc).len(),
        !({
            let line = crate::text::lines_of(doc)[ln as int];
            let safe = crate::text::char_floor(line, col);
            let da = crate::completion::dot_access(line.take(safe as int));
            da.0 && da.1.len() > 0
        }),
    ensures
        distinct_labels(completion_list(doc, ln, col, vars, funcs, cache, files)),
{
    let line = crate::text::lines_of(doc)[ln as int];
    let safe = crate::text::char_floor(line, col);
    let c = crate::complete::cursor_context(line, ln, safe);
    lemma_dedup_labels(crate::complete::user_candidates(c, vars, funcs) + crate::complete::builtin_candidates(c));
}

/// An enhanced completion list names each label once.
pub proof fn law_enhanced_labels_distinct(
    doc: Seq<char>,
    ln: nat,
    col: nat,
    raw: Seq<crate::complete::AnalyzerView>,
    vars: Seq<VariableView>,
    funcs: Seq<FunctionView>,
    cache: Seq<Seq<char>>,
    files: Seq<(Seq<char>, Seq<char>)>,
)
    ensures
        enhanced(doc, ln, col, raw, vars, funcs, cache, files) matches EnhancementView::Entries(es) ==> distinct_entry_labels(es),
{
    if raw.len() > 0 && ln < crate::text::lines_of(doc).len() {
        let line = crate::text::lines_of(doc)[ln as int];
        let safe = crate::text::char_floor(line, col);
        let c = crate::complete::cursor_context(line, ln, safe);
        let da = crate::completion::dot_access(c.prefix);
        let member_access = da.0 && da.1.len() > 0;
        let own = if member_access {
            crate::complete::member_completions(vars, doc, cache, files, da.1, da.2, ln, crate::text::byte_col(line, da.3 + 1int), crate::text::byte_col(line, safe as int))
        } else if !da.0 {
            crate::complete::user_candidates(c, vars, funcs)
        } else {
            seq![]
        };
        let is_vector = member_access && crate::vectors::inferred_dimension(vars, doc, da.1) is Some;
        let an = crate::complete::concat_map(
            Seq::new(raw.len(), |k: int| k),
            crate::complete::analyzer_fn(raw, da.0, is_vector, c.paren),
        );
        let sn = if !da.0 && c.word.len() > 0 {
            crate::completion::snippet_items(c.word)
        } else {
            seq![]
        };
        lemma_dedup_entry_labels(
            crate::complete::concat_map(own, crate::complete::own_fn()) + an + crate::complete::concat_map(
                sn,
                crate::complete::own_fn(),
            ),
        );
    }
}

/// In a comment or a string there is no completion, signature help, hover
/// text or definition.
pub proof fn law_quiet_in_comments(
    doc: Seq<char>,
    ln: nat,
    col: nat,
    vars: Seq<VariableView>,
    funcs: Seq<FunctionView>,
    cache: Seq<Seq<char>>,
    files: Seq<(Seq<char>, Seq<char>)>,
)
    requires
        in_comment_or_string(doc, ln, col),
    ensures
        completion_list(doc, ln, col, vars, funcs, cache, files) == Seq::<ItemView>::empty(),
        signature_help(doc, ln, col, funcs) is None,
        hover_text(doc, ln, col, funcs, vars) is None,
        definition(doc, ln, col, funcs, vars) is None,
{
}

proof fn lemma_no_percent(s: Seq<char>)
    requires
        !s.contains('%'),
    ensures
        percent_decode(s) == s,
    decreases s.len(),
{
    if s.len() > 0 {
        assert(s[0] != '%') by {
            if s[0] == '%' {
                assert(s.contains('%'));
            }
        }
        let t = s.skip(1);
        assert(!t.contains('%')) by {
            if t.contains('%') {
                let k = choose|k: int| 0 <= k < t.len() && t[k] == '%';
                assert(s[k + 1] == '%');
            }
        }
        lemma_no_percent(t);
        assert(s =~= seq![s[0]] + t);
    }
}

/// Decoding text without `%` gives it back unchanged.
pub proof fn law_percent_decode_plain(s: Seq<char>)
    requires
        !s.contains('%'),
    ensures
        percent_decode(s) == s,
{
    lemma_no_percent(s);
}

/// An absolute path without `%` and `\` comes back from its `file://` URI.
pub proof fn law_path_uri_round_trip(p: Seq<char>, windows: bool)
    requires
        p.len() > 0,
        p[0] == '/',
        !p.contains('%'),
        !p.contains('\\'),
        !windows || p.len() < 3 || p[2] != ':',
    ensures
        uri_path(path_uri(p), windows) == Some(p),
{
    reveal_strlit("file://");
    reveal_strlit("/");
    let s = crate::config::forward_slashes(p);
    assert(s =~= p) by {
        assert forall|i: int| 0 <= i < p.len() implies s[i] == p[i] by {
            if p[i] == '\\' {
                assert(p.contains('\\'));
            }
        }
    }
    assert(starts_with(s, "/"@)) by {
        assert("/"@ =~= seq!['/']);
        assert(s.take(1) =~= seq!['/']);
    }
    let u = path_uri(p);
    assert(u == "file://"@ + s);
    assert(u.take(7) =~= "file://"@);
    assert(u.skip(7) =~= p);
    lemma_no_percent(p);
}

proof fn lemma_eq_ignore_case_trans(a: Seq<char>, b: Seq<char>, c: Seq<char>)
    requires
        eq_ignore_ascii_case(a, b),
    ensures
        eq_ignore_ascii_case(a, c) == eq_ignore_ascii_case(b, c),
{
    if eq_ignore_ascii_case(a, c) {
        assert forall|i: int| 0 <= i < b.len() implies ascii_lower(#[trigger] b[i]) == ascii_lower(c[i]) by {
            assert(ascii_lower(a[i]) == ascii_lower(b[i]));
            assert(ascii_lower(a[i]) == ascii_lower(c[i]));
        }
    }
    if eq_ignore_ascii_case(b, c) {
        assert forall|i: int| 0 <= i < a.len() implies ascii_lower(#[trigger] a[i]) == ascii_lower(c[i]) by {
            assert(ascii_lower(a[i]) == ascii_lower(b[i]));
            assert(ascii_lower(b[i]) == ascii_lower(c[i]));
        }
    }
}

/// The target and the formatter named in settings do not depend on ASCII case.
pub proof fn law_setting_names_ignore_case(a: Seq<char>, b: Seq<char>)
    requires
        eq_ignore_ascii_case(a, b),
    ensures
        target_of(a) == target_of(b),
        engine_of(a) == engine_of(b),
{
    lemma_eq_ignore_case_trans(a, b, "vulkan"@);
    lemma_eq_ignore_case_trans(a, b, "vk"@);
    lemma_eq_ignore_case_trans(a, b, "clang-format"@);
    lemma_eq_ignore_case_trans(a, b, "clang"@);
}

/// A line that is a `//` comment is left as it is by the spacing rules.
pub proof fn law_comment_line_unchanged(s: Seq<char>)
    requires
        s.len() >= 2,
        s[0] == '/',
        s[1] == '/',
    ensures
        cleaned_line(s) == s,
{
    reveal_strlit("if(");
    reveal_strlit("for(");
    reveal_strlit("while(");
    assert(clean_from(s, 0, false, None) == s.skip(0));
    assert(s.skip(0) =~= s);
}

/// A resolved `#version` header always ends by resetting the line counter
/// with `#line 1`.
pub proof fn law_header_resets_lines(
    uri: Seq<char>,
    text: Seq<char>,
    target: TargetApi,
    docs: Seq<(Seq<char>, Seq<char>)>,
    configured: Option<Seq<char>>,
    filename: Seq<char>,
    sibs: Seq<(Seq<char>, Option<Seq<char>>)>,
)
    ensures
        resolved_header(uri, text, target, docs, configured, filename, sibs) matches Some(h) ==> ends_with(
            h,
            "#line 1\n"@,
        ),
{
    reveal_strlit("#line 1\n");
    reveal_strlit("\n#line 1\n");
    reveal_strlit("#version 460 core\n#line 1\n");
    reveal_strlit("#version 460\n#line 1\n");
    match configured {
        Some(c) => {
            let h = configured_header(c);
            assert(h.skip(h.len() - 8) =~= "#line 1\n"@);
        },
        None => {},
    }
    let d = default_header(target);
    assert(d.skip(d.len() - 8) =~= "#line 1\n"@);
    lemma_parent_end(docs, uri, filename, 0);
    lemma_sibling_end(sibs, filename, 0, 0);
    lemma_any_end(docs, uri, 0);
}

proof fn lemma_version_header_end(t: Seq<char>)
    ensures
        version_header(t) matches Some(h) ==> ends_with(h, "#line 1\n"@),
{
    reveal_strlit("#line 1\n");
    if let Some(h) = version_header(t) {
        assert(h.skip(h.len() - 8) =~= "#line 1\n"@);
    }
}

proof fn lemma_parent_end(docs: Seq<(Seq<char>, Seq<char>)>, uri: Seq<char>, filename: Seq<char>, i: int)
    ensures
        crate::config::parent_header(docs, uri, filename, i) matches Some(h) ==> ends_with(h, "#line 1\n"@),
    decreases docs.len() - i,
{
    if 0 <= i < docs.len() {
        lemma_version_header_end(docs[i].1);
        lemma_parent_end(docs, uri, filename, i + 1);
    }
}

proof fn lemma_sibling_end(sibs: Seq<(Seq<char>, Option<Seq<char>>)>, filename: Seq<char>, i: int, checked: int)
    ensures
        crate::config::sibling_header(sibs, filename, i, checked) matches Some(h) ==> ends_with(h, "#line 1\n"@),
    decreases sibs.len() - i,
{
    if 0 <= i < sibs.len() {
        if sibs[i].1 is Some {
            lemma_version_header_end(sibs[i].1.unwrap());
        }
        lemma_sibling_end(sibs, filename, i + 1, checked);
        lemma_sibling_end(sibs, filename, i + 1, checked + 1);
    }
}

proof fn lemma_any_end(docs: Seq<(Seq<char>, Seq<char>)>, uri: Seq<char>, i: int)
    ensures
        crate::config::any_header(docs, uri, i) matches Some(h) ==> ends_with(h, "#line 1\n"@),
    decreases docs.len() - i,
{
    if 0 <= i < docs.len() {
        lemma_version_header_end(docs[i].1);
        lemma_any_end(docs, uri, i + 1);
    }
}

/// Each file the include walk asks for was not visited before, is asked for
/// at a depth of at most eight, and is visited from then on; no visited
/// path is forgotten.
pub proof fn law_include_walk_fresh(frames: Seq<FrameView>, visited: Seq<Seq<char>>)
    ensures
        ({
            let r = advance(frames, visited);
            &&& r.0 matches Some(q) ==> !visited.contains(q.path) && q.depth <= 8 && r.2.contains(q.path)
            &&& forall|p: Seq<char>| visited.contains(p) ==> r.2.contains(p)
        }),
    decreases pending(frames),
{
    if frames.len() > 0 {
        let f = frames.last();
        if f.next >= f.lines.len() {
            law_include_walk_fresh(frames.drop_last(), visited);
        } else {
            let fr2 = frames.drop_last().push(FrameView { next: f.next + 1, ..f });
            assert(fr2.drop_last() =~= frames.drop_last());
            match crate::includes::include_target(f.lines[f.next as int]) {
                None => {
                    law_include_walk_fresh(fr2, visited);
                },
                Some(t) => {
                    let c = crate::includes::join_path(f.dir, t);
                    if visited.contains(c) {
                        law_include_walk_fresh(fr2, visited);
                    } else if f.depth > 8 {
                        law_include_walk_fresh(fr2, visited.push(c));
                        assert forall|p: Seq<char>| visited.contains(p) implies visited.push(c).contains(p) by {
                            crate::text::lemma_contains_push(visited, c, p);
                        }
                        let r = advance(fr2, visited.push(c));
                        if let Some(q) = r.0 {
                            if visited.contains(q.path) {
                                crate::text::lemma_contains_push(visited, c, q.path);
                            }
                        }
                    } else {
                        crate::text::lemma_contains_push(visited, c, c);
                        assert forall|p: Seq<char>| visited.contains(p) implies visited.push(c).contains(p) by {
                            crate::text::lemma_contains_push(visited, c, p);
                        }
                    }
                },
            }
        }
    }
}

/// No blank line starts the formatter's output or follows another; the
/// state knows whether the last line put out was blank.
pub open spec fn blank_lines_collapsed(st: FormatState) -> bool {
    &&& (st.lines.len() > 0 ==> st.lines[0].len() > 0)
    &&& forall|i: int| 0 <= i < st.lines.len() - 1 ==> (#[trigger] st.lines[i]).len() > 0 || st.lines[i + 1].len() > 0
    &&& (st.blank ==> st.lines.len() > 0 && st.lines.last().len() == 0)
    &&& (!st.blank && st.lines.len() > 0 ==> st.lines.last().len() > 0)
}

/// The formatter never puts out two blank lines in a row, nor a blank first line.
pub proof fn law_format_blank_lines(ls: Seq<Seq<char>>, n: nat, unit: Seq<char>)
    ensures
        blank_lines_collapsed(format_scan(ls, n, unit)),
    decreases n,
{
    if n > 0 && n <= ls.len() {
        law_format_blank_lines(ls, (n - 1) as nat, unit);
        let st = format_scan(ls, (n - 1) as nat, unit);
        let t = crate::text::trim(ls[n - 1]);
        let st2 = format_step(st, ls[n - 1], unit);
        if t.len() == 0 {
        } else if starts_with(t, "#"@) {
            assert(st2.lines.last() == t);
        } else {
            let c = crate::format::cleaned_line(t);
            lemma_cleaned_nonempty(t);
            assert(st2.lines.last().len() >= c.len());
        }
    }
}

pub(crate) proof fn lemma_cleaned_nonempty(t: Seq<char>)
    requires
        t.len() > 0,
    ensures
        cleaned_line(t).len() > 0,
{
    reveal_strlit("if(");
    reveal_strlit("for(");
    reveal_strlit("while(");
    reveal_strlit("if (");
    reveal_strlit("for (");
    reveal_strlit("while (");
    lemma_clean_from_nonempty(t, 0, false, None);
}

proof fn lemma_clean_from_nonempty(s: Seq<char>, i: int, in_str: bool, prev: Option<char>)
    requires
        0 <= i < s.len(),
        !(s[i] == ' ' && prev == Some(' ') && !in_str && s[i] != '"'),
    ensures
        clean_from(s, i, in_str, prev).len() > 0,
{
}

/// Every member found in a struct declaration has a valid identifier as its name.
pub proof fn law_struct_fields_named(name: Seq<char>, text: Seq<char>)
    ensures
        forall|k: int| 0 <= k < struct_fields(name, text).len() ==> crate::variables::valid_identifier(
            (#[trigger] struct_fields(name, text)[k]).0,
        ),
{
    let ls = crate::text::lines_of(text);
    lemma_scan_fields_named(ls, ls.len(), "struct "@ + name);
}

pub open spec fn all_named(fs: Seq<(Seq<char>, Seq<char>)>) -> bool {
    forall|k: int| 0 <= k < fs.len() ==> crate::variables::valid_identifier((#[trigger] fs[k]).0)
}

proof fn lemma_concat_named(a: Seq<(Seq<char>, Seq<char>)>, b: Seq<(Seq<char>, Seq<char>)>)
    requires
        all_named(a),
        all_named(b),
    ensures
        all_named(a + b),
{
    assert forall|k: int| 0 <= k < (a + b).len() implies crate::variables::valid_identifier((#[trigger] (a + b)[k]).0) by {
        if k < a.len() {
            assert((a + b)[k] == a[k]);
        } else {
            assert((a + b)[k] == b[k - a.len()]);
        }
    }
}

proof fn lemma_piece_named(pieces: Seq<Seq<char>>, ty: Seq<char>)
    ensures
        all_named(piece_fields(pieces, ty)),
    decreases pieces.len(),
{
    if pieces.len() > 0 {
        lemma_piece_named(pieces.drop_first(), ty);
        let n = crate::vectors::field_name(crate::text::trim(pieces[0]));
        let head: Seq<(Seq<char>, Seq<char>)> = if crate::variables::valid_identifier(n) {
            seq![(n, ty)]
        } else {
            seq![]
        };
        lemma_concat_named(head, piece_fields(pieces.drop_first(), ty));
    }
}

proof fn lemma_token_named(toks: Seq<Seq<char>>, ty: Seq<char>)
    ensures
        all_named(token_fields(toks, ty)),
    decreases toks.len(),
{
    if toks.len() > 0 {
        lemma_token_named(toks.drop_first(), ty);
        lemma_piece_named(crate::text::split_char(toks[0], ','), ty);
        lemma_concat_named(
            piece_fields(crate::text::split_char(toks[0], ','), ty),
            token_fields(toks.drop_first(), ty),
        );
    }
}

proof fn lemma_statement_named(clean: Seq<char>)
    ensures
        all_named(statement_fields(clean)),
{
    if ends_with(clean, ";"@) {
        let stmt = crate::text::trim(clean.take(clean.len() - crate::text::trail(clean, crate::vectors::semi_pred())));
        let toks = crate::text::words(stmt);
        if toks.len() >= 2 {
            lemma_token_named(toks.skip(2), toks[1]);
            lemma_token_named(toks.skip(1), toks[0]);
        }
    }
}

proof fn lemma_scan_fields_named(ls: Seq<Seq<char>>, n: nat, pattern: Seq<char>)
    ensures
        all_named(crate::vectors::field_scan(ls, n, pattern).fields),
    decreases n,
{
    if n > 0 && n <= ls.len() {
        lemma_scan_fields_named(ls, (n - 1) as nat, pattern);
        let st = crate::vectors::field_scan(ls, (n - 1) as nat, pattern);
        let t = crate::text::trim(ls[n - 1]);
        lemma_statement_named(crate::text::trim(crate::vectors::before_comment(t)));
        lemma_concat_named(st.fields, statement_fields(crate::text::trim(crate::vectors::before_comment(t))));
    }
}

/// A change of configuration that gives no value changes nothing.
pub proof fn law_empty_configuration_keeps_settings(s: SettingsView)
    ensures
        reconfigured(
            s,
            ValuesView {
                target_api: None,
                formatter: None,
                glslang_path: None,
                analyzer_path: None,
                clang_path: None,
                default_version: None,
            },
        ) == s,
{
}

proof fn lemma_decimal_digits(n: nat)
    ensures
        all_digits(decimal(n)),
        decimal(n).len() > 0,
        digits_value(decimal(n)) == n,
    decreases n,
{
    if n < 10 {
        let d = decimal(n);
        assert(digit_char(n) as nat == n + 48);
        assert(d.drop_last() =~= Seq::<char>::empty());
        assert(digits_value(d.drop_last()) == 0);
        assert(d.last() == digit_char(n));
        assert(digits_value(d) == digits_value(d.drop_last()) * 10 + ((d.last() as nat) - 48) as nat);
    } else {
        lemma_decimal_digits(n / 10);
        let d = decimal(n);
        assert(d.drop_last() =~= decimal(n / 10));
        assert(digit_char(n % 10) as nat == n % 10 + 48);
        assert(d.last() == digit_char(n % 10));
        assert((n / 10) * 10 + n % 10 == n) by (nonlinear_arith);
        assert(digits_value(d) == digits_value(d.drop_last()) * 10 + ((d.last() as nat) - 48) as nat);
        assert forall|i: int| 0 <= i < d.len() implies '0' <= #[trigger] d[i] && d[i] <= '9' by {
            if i < d.len() - 1 {
                assert(d[i] == decimal(n / 10)[i]);
            }
        }
    }
}

/// A number written in decimal reads back as itself.
pub proof fn law_decimal_reads_back(n: u32)
    ensures
        parse_u32(decimal(n as nat)) == Some(n),
{
    lemma_decimal_digits(n as nat);
    let d = decimal(n as nat);
    assert(d[0] != '+');
}

/// The first ten lines of a list of lines (all of them when there are fewer).
pub open spec fn first_ten(ls: Seq<Seq<char>>) -> Seq<Seq<char>> {
    if ls.len() <= 10 {
        ls
    } else {
        ls.take(10)
    }
}

proof fn lemma_directives_from(la: Seq<Seq<char>>, lb: Seq<Seq<char>>, i: int, d: TargetApi, e: crate::config::FormatterEngine)
    requires
        0 <= i,
        first_ten(la) == first_ten(lb),
    ensures
        crate::config::target_from(la, i, d) == crate::config::target_from(lb, i, d),
        crate::config::engine_from(la, i, e) == crate::config::engine_from(lb, i, e),
    decreases 10 - i,
{
    if i < 10 {
        assert(i < la.len() <==> i < first_ten(la).len());
        assert(i < lb.len() <==> i < first_ten(lb).len());
        if i < la.len() {
            assert(la[i] == first_ten(la)[i]);
            assert(lb[i] == first_ten(lb)[i]);
        }
        lemma_directives_from(la, lb, i + 1, d, e);
    }
}

/// Directives that choose the target API or the formatter count only in the
/// first ten lines: texts whose first ten lines agree make the same choice,
/// whatever follows.
pub proof fn law_directives_in_first_ten_lines(
    a: Seq<char>,
    b: Seq<char>,
    d: TargetApi,
    e: crate::config::FormatterEngine,
)
    requires
        first_ten(crate::text::lines_of(a)) == first_ten(crate::text::lines_of(b)),
    ensures
        crate::config::target_from(crate::text::lines_of(a), 0, d) == crate::config::target_from(
            crate::text::lines_of(b),
            0,
            d,
        ),
        crate::config::engine_from(crate::text::lines_of(a), 0, e) == crate::config::engine_from(
            crate::text::lines_of(b),
            0,
            e,
        ),
{
    lemma_directives_from(crate::text::lines_of(a), crate::text::lines_of(b), 0, d, e);
}

proof fn lemma_var_index_first(vs: Seq<VariableView>, name: Seq<char>, i: int, k: int)
    requires
        0 <= i <= k < vs.len(),
        vs[k].name == name,
        forall|j: int| i <= j < k ==> #[trigger] vs[j].name != name,
    ensures
        crate::vectors::var_index(vs, name, i) == Some(k),
    decreases k - i,
{
    if i < k {
        lemma_var_index_first(vs, name, i + 1, k);
    }
}

/// An expression that is a single name known among the scanned variables has
/// the dimension of the declared type of the first variable of that name,
/// whatever the document declares and even for the name of a built-in.
pub proof fn law_known_name_dimension(vs: Seq<VariableView>, doc: Seq<char>, expr: Seq<char>, k: int)
    requires
        crate::vectors::segments(expr).len() == 1,
        0 <= k < vs.len(),
        vs[k].name == crate::vectors::segments(expr)[0],
        forall|j: int| 0 <= j < k ==> #[trigger] vs[j].name != crate::vectors::segments(expr)[0],
    ensures
        crate::vectors::inferred_dimension(vs, doc, expr) == crate::vectors::vector_dimension(vs[k].var_type),
{
    lemma_var_index_first(vs, crate::vectors::segments(expr)[0], 0, k);
}

/// No frame has an `#include` line left to read.
pub open spec fn no_include_left(frames: Seq<FrameView>) -> bool {
    forall|k: int, i: int|
        0 <= k < frames.len() && frames[k].next <= i < frames[k].lines.len() ==> (#[trigger] crate::includes::include_target(
            frames[k].lines[i],
        )) is None
}

proof fn lemma_no_include_left(frames: Seq<FrameView>, visited: Seq<Seq<char>>)
    requires
        no_include_left(frames),
    ensures
        advance(frames, visited).0 is None,
    decreases pending(frames),
{
    if frames.len() > 0 {
        let f = frames.last();
        if f.next >= f.lines.len() {
            assert forall|k: int, i: int|
                0 <= k < frames.drop_last().len() && frames.drop_last()[k].next <= i < frames.drop_last()[k].lines.len()
                implies (#[trigger] crate::includes::include_target(frames.drop_last()[k].lines[i])) is None by {
                assert(frames.drop_last()[k] == frames[k]);
            }
            lemma_no_include_left(frames.drop_last(), visited);
        } else {
            let fr2 = frames.drop_last().push(FrameView { next: f.next + 1, ..f });
            assert(fr2.drop_last() =~= frames.drop_last());
            assert(crate::includes::include_target(f.lines[f.next as int]) is None);
            assert forall|k: int, i: int|
                0 <= k < fr2.len() && fr2[k].next <= i < fr2[k].lines.len()
                implies (#[trigger] crate::includes::include_target(fr2[k].lines[i])) is None by {
                if k < frames.len() - 1 {
                    assert(fr2[k] == frames[k]);
                } else {
                    assert(fr2[k].lines == f.lines);
                    assert(crate::includes::include_target(frames[frames.len() - 1].lines[i]) is None);
                }
            }
            lemma_no_include_left(fr2, visited);
        }
    }
}

/// A document without `#include` lines asks for no file: its include walk
/// ends at once, so what it gathers is the document's own functions and
/// variables.
pub proof fn law_no_includes_no_requests(uri: Seq<char>, text: Seq<char>, windows: bool)
    requires
        forall|i: int|
            0 <= i < crate::text::lines_of(text).len() ==> (#[trigger] crate::includes::include_target(
                crate::text::lines_of(text)[i],
            )) is None,
    ensures
        advance(crate::includes::initial_frames(uri, text, windows), seq![]).0 is None,
{
    let fr = crate::includes::initial_frames(uri, text, windows);
    assert forall|k: int, i: int| 0 <= k < fr.len() && fr[k].next <= i < fr[k].lines.len()
        implies (#[trigger] crate::includes::include_target(fr[k].lines[i])) is None by {
        assert(fr[k].lines == crate::text::lines_of(text));
    }
    lemma_no_include_left(fr, seq![]);
}

/// A declared function name and return type pass the scan's checks.
pub open spec fn decl_ok(name: Seq<char>, ret: Seq<char>) -> bool {
    crate::symbols::valid_fn_name(name) && !crate::lexical::in_list(name, crate::symbols::INVALID_NAMES)
        && !crate::lexical::in_list(ret, crate::symbols::INVALID_TYPES)
}

/// A declaration head whose name and return type (the last two words before
/// its first `(`) pass the scan's checks.
pub open spec fn head_ok(h: Seq<char>) -> bool {
    match crate::text::find(h, seq!['(']) {
        Some(open) => {
            let ws = crate::text::words(crate::text::trim(h.take(open)));
            ws.len() >= 2 && decl_ok(ws[ws.len() - 1], ws[ws.len() - 2])
        },
        None => false,
    }
}

/// A scanned function with a checked name and return type and the given source and URI.
pub open spec fn fn_ok(f: FunctionView, src: Option<Seq<char>>, uri: Option<Seq<char>>) -> bool {
    decl_ok(f.name, f.return_type) && f.source == src && f.file_uri == uri
}

pub open spec fn fn_scan_inv(st: crate::symbols::FnScan, n: nat, src: Option<Seq<char>>, uri: Option<Seq<char>>) -> bool {
    &&& forall|i: int| 0 <= i < st.results.len() ==> fn_ok(#[trigger] st.results[i], src, uri) && st.results[i].line < n
    &&& forall|i: int, j: int| 0 <= i < j < st.results.len() ==> #[trigger] st.results[i].line < #[trigger] st.results[j].line
    &&& st.multi is Some ==> {
        let (sl, sc, h0) = st.multi.unwrap();
        &&& sl < n
        &&& head_ok(h0)
        &&& forall|i: int| 0 <= i < st.results.len() ==> #[trigger] st.results[i].line < sl
    }
}

proof fn lemma_header_ok(
    h: Seq<char>,
    m: int,
    pending: Seq<Seq<char>>,
    src: Option<Seq<char>>,
    line: nat,
    col: nat,
    uri: Option<Seq<char>>,
)
    requires
        head_ok(h),
        0 <= m <= h.len(),
    ensures
        crate::symbols::header_signature(h.take(m), pending, src, line, col, uri) matches Some(f) ==> fn_ok(f, src, uri)
            && f.line == line,
{
    let open = crate::text::find(h, seq!['(']).unwrap();
    crate::text::lemma_find_from_facts(h, seq!['('], 0);
    crate::text::lemma_find_agree(h, h.take(m), seq!['('], m);
    if open + 1 <= m {
        assert(h.take(m).take(open) =~= h.take(open));
    }
}

proof fn lemma_head_extend(h0: Seq<char>, b: Seq<char>)
    requires
        head_ok(h0),
    ensures
        head_ok(h0 + b),
{
    let open = crate::text::find(h0, seq!['(']).unwrap();
    crate::text::lemma_find_from_facts(h0, seq!['('], 0);
    crate::text::lemma_find_agree(h0, h0 + b, seq!['('], h0.len() as int);
    assert((h0 + b).take(open) =~= h0.take(open));
}

proof fn lemma_fn_decl(
    st: crate::symbols::FnScan,
    n: nat,
    raw: Seq<char>,
    line: Seq<char>,
    src: Option<Seq<char>>,
    uri: Option<Seq<char>>,
)
    requires
        fn_scan_inv(st, n, src, uri),
        st.multi is None,
    ensures
        fn_scan_inv(crate::symbols::fn_decl_step(st, n, raw, line, src, uri), n + 1, src, uri),
{
    match crate::text::find(line, seq!['(']) {
        None => {},
        Some(open) => {
            let ws = crate::text::words(crate::text::trim(line.take(open)));
            if ws.len() >= 2 && decl_ok(ws[ws.len() - 1], ws[ws.len() - 2]) {
                assert(head_ok(line));
                crate::text::lemma_find_from_facts(line, seq![')'], 0);
                match crate::text::find(line, seq![')']) {
                    Some(ci) => {
                        let col: nat = match crate::text::find(raw, ws[ws.len() - 1]) {
                            Some(c) => crate::text::byte_col(raw, c),
                            None => 0,
                        };
                        lemma_header_ok(line, ci + 1, st.pending, src, n, col, uri);
                    },
                    None => {},
                }
            }
        },
    }
}

proof fn lemma_fn_step_multi(st: crate::symbols::FnScan, n: nat, raw: Seq<char>, src: Option<Seq<char>>, uri: Option<Seq<char>>)
    requires
        fn_scan_inv(st, n, src, uri),
        st.multi is Some,
    ensures
        fn_scan_inv(crate::symbols::fn_step(st, n, raw, src, uri), n + 1, src, uri),
{
    let line = crate::text::trim(raw);
    let (sl, sc, h0) = st.multi.unwrap();
    let h = h0 + seq![' '] + line;
    assert(h =~= h0 + (seq![' '] + line));
    lemma_head_extend(h0, seq![' '] + line);
    crate::text::lemma_find_from_facts(h, seq![')'], 0);
    match crate::text::find(h, seq![')']) {
        Some(ci) => {
            lemma_header_ok(h, ci + 1, st.pending, src, sl, sc, uri);
        },
        None => {},
    }
}

proof fn lemma_fn_step_plain(st: crate::symbols::FnScan, n: nat, raw: Seq<char>, src: Option<Seq<char>>, uri: Option<Seq<char>>)
    requires
        fn_scan_inv(st, n, src, uri),
        st.multi is None,
    ensures
        fn_scan_inv(crate::symbols::fn_step(st, n, raw, src, uri), n + 1, src, uri),
{
    let line = crate::text::trim(raw);
    if !crate::text::starts_with(line, "//"@) && line.len() != 0 {
        let st2 = if st.brace == 0 && !crate::text::starts_with(line, "return"@) && !crate::text::starts_with(line, "#"@) {
            lemma_fn_decl(st, n, raw, line, src, uri);
            crate::symbols::fn_decl_step(st, n, raw, line, src, uri)
        } else {
            st
        };
        assert(fn_scan_inv(st2, n + 1, src, uri));
    }
}

proof fn lemma_fn_step(st: crate::symbols::FnScan, n: nat, raw: Seq<char>, src: Option<Seq<char>>, uri: Option<Seq<char>>)
    requires
        fn_scan_inv(st, n, src, uri),
    ensures
        fn_scan_inv(crate::symbols::fn_step(st, n, raw, src, uri), n + 1, src, uri),
{
    if st.multi is Some {
        lemma_fn_step_multi(st, n, raw, src, uri);
    } else {
        lemma_fn_step_plain(st, n, raw, src, uri);
    }
}

proof fn lemma_fn_scan(ls: Seq<Seq<char>>, n: nat, src: Option<Seq<char>>, uri: Option<Seq<char>>)
    requires
        n <= ls.len(),
    ensures
        fn_scan_inv(crate::symbols::fn_scan(ls, n, src, uri), n, src, uri),
    decreases n,
{
    if n > 0 {
        lemma_fn_scan(ls, (n - 1) as nat, src, uri);
        lemma_fn_step(crate::symbols::fn_scan(ls, (n - 1) as nat, src, uri), (n - 1) as nat, ls[n - 1], src, uri);
    }
}

/// Every scanned function has a valid name that is no keyword or built-in
/// type, a return type that is no statement keyword, the given source and
/// URI, and lies on a line of the text; the functions come in line order.
pub proof fn law_scanned_functions(text: Seq<char>, src: Option<Seq<char>>, uri: Option<Seq<char>>)
    ensures
        forall|i: int|
            0 <= i < crate::symbols::user_functions(text, src, uri).len() ==> {
                let f = #[trigger] crate::symbols::user_functions(text, src, uri)[i];
                &&& crate::variables::valid_identifier(f.name)
                &&& fn_ok(f, src, uri)
                &&& f.line < crate::text::lines_of(text).len()
            },
        forall|i: int, j: int|
            0 <= i < j < crate::symbols::user_functions(text, src, uri).len() ==> (#[trigger] crate::symbols::user_functions(
                text,
                src,
                uri,
            )[i]).line < (#[trigger] crate::symbols::user_functions(text, src, uri)[j]).line,
{
    let ls = crate::text::lines_of(text);
    lemma_fn_scan(ls, ls.len(), src, uri);
}

/// A scanned symbol with a valid name that is no keyword (a macro's name may
/// be one), and the given source and URI.
pub open spec fn var_ok(v: VariableView, src: Option<Seq<char>>, uri: Option<Seq<char>>) -> bool {
    &&& crate::variables::valid_identifier(v.name)
    &&& (!crate::lexical::in_list(v.name, crate::symbols::INVALID_NAMES) || v.qualifier == "#define"@)
    &&& v.source == src
    &&& v.file_uri == uri
}

pub open spec fn vars_ok(rs: Seq<VariableView>, m: nat, src: Option<Seq<char>>, uri: Option<Seq<char>>) -> bool {
    forall|i: int| 0 <= i < rs.len() ==> var_ok(#[trigger] rs[i], src, uri) && rs[i].line < m
}

proof fn lemma_declared_vars(
    parts: Seq<Seq<char>>,
    ty: Seq<char>,
    qual: Seq<char>,
    doc: Option<Seq<char>>,
    src: Option<Seq<char>>,
    idx: nat,
    raw: Seq<char>,
    uri: Option<Seq<char>>,
)
    ensures
        vars_ok(crate::variables::declared_vars(parts, ty, qual, doc, src, idx, raw, uri), idx + 1, src, uri),
    decreases parts.len(),
{
    if parts.len() > 0 {
        lemma_declared_vars(parts.drop_last(), ty, qual, doc, src, idx, raw, uri);
    }
}

proof fn lemma_vars_append(a: Seq<VariableView>, b: Seq<VariableView>, m: nat, src: Option<Seq<char>>, uri: Option<Seq<char>>)
    requires
        vars_ok(a, m, src, uri),
        vars_ok(b, m, src, uri),
    ensures
        vars_ok(a + b, m, src, uri),
{
    assert forall|i: int| 0 <= i < (a + b).len() implies var_ok(#[trigger] (a + b)[i], src, uri) && (a + b)[i].line < m by {
        if i < a.len() {
            assert((a + b)[i] == a[i]);
        } else {
            assert((a + b)[i] == b[i - a.len()]);
        }
    }
}

proof fn lemma_var_step(st: crate::variables::VarScan, n: nat, raw: Seq<char>, src: Option<Seq<char>>, uri: Option<Seq<char>>)
    requires
        vars_ok(st.results, n, src, uri),
    ensures
        vars_ok(crate::variables::var_step(st, n, raw, src, uri).results, n + 1, src, uri),
{
    let line = crate::text::trim(raw);
    assert(vars_ok(st.results, n + 1, src, uri));
    if !crate::text::starts_with(line, "//"@) && line.len() != 0 && !crate::text::starts_with(line, "#define"@) {
        let st1 = crate::variables::struct_step(st, n, raw, line, src, uri);
        assert(vars_ok(st1.results, n + 1, src, uri));
        let al = crate::variables::after_layout(line);
        let st2a = crate::variables::block_step(st1, n, raw, al, "uniform"@, src, uri);
        assert(vars_ok(st2a.results, n + 1, src, uri));
        let st2b = crate::variables::block_step(st2a, n, raw, al, "buffer"@, src, uri);
        assert(vars_ok(st2b.results, n + 1, src, uri));
        let st2 = if crate::text::contains(al, "{"@) {
            st2b
        } else {
            st1
        };
        let clean = crate::variables::clean_line(line);
        let st3 = crate::variables::instance_step(st2, n, raw, clean, src, uri);
        assert(vars_ok(st3.results, n + 1, src, uri));
        match crate::variables::decl_statement(clean) {
            Some(stmt) => {
                let toks = crate::text::words(stmt);
                match crate::variables::decl_head(toks, 0, seq![], st3.custom) {
                    None => {},
                    Some((q, ty, start)) => {
                        if !(ty.len() == 0 || start >= toks.len()) {
                            let q2 = if q.len() == 0 {
                                "var"@
                            } else {
                                q
                            };
                            let rem = crate::text::join(toks.skip(start), " "@);
                            lemma_declared_vars(
                                crate::text::split_char(rem, ','),
                                ty,
                                q2,
                                crate::symbols::doc_of(st3.pending, " "@),
                                src,
                                n,
                                raw,
                                uri,
                            );
                        }
                    },
                }
                assert(vars_ok(crate::variables::statement_vars(st3, n, raw, stmt, src, uri), n + 1, src, uri));
                lemma_vars_append(st3.results, crate::variables::statement_vars(st3, n, raw, stmt, src, uri), n + 1, src, uri);
            },
            None => {},
        }
    }
}

proof fn lemma_var_scan(ls: Seq<Seq<char>>, n: nat, src: Option<Seq<char>>, uri: Option<Seq<char>>)
    requires
        n <= ls.len(),
    ensures
        vars_ok(crate::variables::var_scan(ls, n, src, uri).results, n, src, uri),
    decreases n,
{
    if n > 0 {
        lemma_var_scan(ls, (n - 1) as nat, src, uri);
        lemma_var_step(crate::variables::var_scan(ls, (n - 1) as nat, src, uri), (n - 1) as nat, ls[n - 1], src, uri);
    }
}

/// Every scanned symbol has a valid name that is no keyword (only a
/// `#define` may name one), the given source and URI, and lies on a line of
/// the text.
pub proof fn law_scanned_variables(text: Seq<char>, src: Option<Seq<char>>, uri: Option<Seq<char>>)
    ensures
        vars_ok(crate::variables::user_variables(text, src, uri), crate::text::lines_of(text).len(), src, uri),
{
    let ls = crate::text::lines_of(text);
    lemma_var_scan(ls, ls.len(), src, uri);
}

pub open spec fn nonempty_line() -> spec_fn(Seq<char>) -> bool {
    |l: Seq<char>| l.len() > 0
}

/// The number of the first `n` lines that hold more than whitespace.
pub open spec fn content_lines(ls: Seq<Seq<char>>, n: nat) -> nat
    decreases n,
{
    if n == 0 || n > ls.len() {
        0
    } else {
        content_lines(ls, (n - 1) as nat) + if crate::text::trim(ls[n - 1]).len() > 0 {
            1nat
        } else {
            0nat
        }
    }
}

/// The formatter puts out one non-empty line for each line of the text that
/// holds more than whitespace, and no other non-empty line.
pub proof fn law_format_keeps_content_lines(ls: Seq<Seq<char>>, n: nat, unit: Seq<char>)
    requires
        n <= ls.len(),
    ensures
        format_scan(ls, n, unit).lines.filter(nonempty_line()).len() == content_lines(ls, n),
    decreases n,
{
    if n == 0 {
        crate::text::lemma_filter_empty(format_scan(ls, n, unit).lines, nonempty_line());
    } else {
        law_format_keeps_content_lines(ls, (n - 1) as nat, unit);
        let st = format_scan(ls, (n - 1) as nat, unit);
        let t = crate::text::trim(ls[n - 1]);
        let st2 = format_step(st, ls[n - 1], unit);
        if t.len() == 0 {
            if !st.blank && st.lines.len() > 0 {
                crate::text::lemma_filter_push(st.lines, seq![], nonempty_line());
            }
        } else if starts_with(t, "#"@) {
            crate::text::lemma_filter_push(st.lines, t, nonempty_line());
        } else {
            let c = crate::format::cleaned_line(t);
            lemma_cleaned_nonempty(t);
            let l = crate::format::repeat(unit, crate::format::line_indent(c, st.indent)) + c;
            assert(l.len() > 0);
            crate::text::lemma_filter_push(st.lines, l, nonempty_line());
        }
    }
}

pub(crate) proof fn lemma_cleaned_first(t: Seq<char>)
    requires
        t.len() > 0,
    ensures
        cleaned_line(t).len() > 0,
        cleaned_line(t)[0] == t[0],
{
    reveal_strlit("if(");
    reveal_strlit("for(");
    reveal_strlit("while(");
    reveal_strlit("if (");
    reveal_strlit("for (");
    reveal_strlit("while (");
    let r = clean_from(t, 0, false, None);
    assert(r.len() > 0 && r[0] == t[0]);
    if starts_with(r, "if("@) {
        assert(r.take(3)[0] == r[0]);
        assert(("if ("@ + r.skip(3))[0] == 'i');
    } else if starts_with(r, "for("@) {
        assert(r.take(4)[0] == r[0]);
        assert(("for ("@ + r.skip(4))[0] == 'f');
    } else if starts_with(r, "while("@) {
        assert(r.take(6)[0] == r[0]);
        assert(("while ("@ + r.skip(6))[0] == 'w');
    }
}

pub(crate) proof fn lemma_trimmed(s: Seq<char>)
    requires
        crate::text::trim(s).len() > 0,
    ensures
        !crate::text::is_ws(crate::text::trim(s)[0]),
        !crate::text::is_ws(crate::text::trim(s).last()),
        crate::text::trim(crate::text::trim(s)) == crate::text::trim(s),
{
    let ws = crate::text::ws_pred();
    let ts = crate::text::trim_start(s);
    let t = crate::text::trim(s);
    crate::text::lemma_lead_facts(s, ws);
    crate::text::lemma_trail_facts(ts, ws);
    assert(t[0] == ts[0]);
    assert(ts[0] == s[crate::text::lead(s, ws) as int]);
    assert(t[t.len() - 1] == ts[ts.len() - 1 - crate::text::trail(ts, ws)]);
    crate::text::lemma_lead(t, ws, 0);
    assert(crate::text::trim_start(t) =~= t);
    crate::text::lemma_trail(t, ws, 0);
    assert(crate::text::trim_end(t) =~= t);
}

pub(crate) proof fn lemma_repeat_ws(unit: Seq<char>, k: nat)
    requires
        forall|j: int| 0 <= j < unit.len() ==> crate::text::is_ws(#[trigger] unit[j]),
    ensures
        forall|j: int| 0 <= j < crate::format::repeat(unit, k).len() ==> crate::text::is_ws(#[trigger] crate::format::repeat(unit, k)[j]),
    decreases k,
{
    if k > 0 {
        lemma_repeat_ws(unit, (k - 1) as nat);
        let r = crate::format::repeat(unit, (k - 1) as nat);
        assert forall|j: int| 0 <= j < (r + unit).len() implies crate::text::is_ws(#[trigger] (r + unit)[j]) by {
            if j < r.len() {
                assert((r + unit)[j] == r[j]);
            } else {
                assert((r + unit)[j] == unit[j - r.len()]);
            }
        }
    }
}

pub(crate) proof fn lemma_trim_start_after_ws(w: Seq<char>, c: Seq<char>)
    requires
        forall|j: int| 0 <= j < w.len() ==> crate::text::is_ws(#[trigger] w[j]),
        c.len() > 0,
        !crate::text::is_ws(c[0]),
    ensures
        crate::text::trim_start(w + c) == c,
{
    let s = w + c;
    assert forall|j: int| 0 <= j < w.len() implies #[trigger] crate::text::ws_pred()(s[j]) by {
        assert(s[j] == w[j]);
    }
    assert(s[w.len() as int] == c[0]);
    crate::text::lemma_lead(s, crate::text::ws_pred(), w.len() as int);
    assert(s.skip(w.len() as int) =~= c);
}

/// Every line the formatter puts out that begins (after white space) with
/// `#` is a directive put at column zero with no white space around it.
pub proof fn law_format_directives_flush(ls: Seq<Seq<char>>, n: nat, tab_size: nat, insert_spaces: bool)
    ensures
        forall|i: int|
            0 <= i < format_scan(ls, n, crate::format::indent_unit(tab_size, insert_spaces)).lines.len()
                && starts_with(
                crate::text::trim_start(
                    #[trigger] format_scan(ls, n, crate::format::indent_unit(tab_size, insert_spaces)).lines[i],
                ),
                "#"@,
            ) ==> format_scan(ls, n, crate::format::indent_unit(tab_size, insert_spaces)).lines[i] == crate::text::trim(
                format_scan(ls, n, crate::format::indent_unit(tab_size, insert_spaces)).lines[i],
            ),
    decreases n,
{
    reveal_strlit("#");
    let unit = crate::format::indent_unit(tab_size, insert_spaces);
    if n > 0 && n <= ls.len() {
        law_format_directives_flush(ls, (n - 1) as nat, tab_size, insert_spaces);
        let st = format_scan(ls, (n - 1) as nat, unit);
        let t = crate::text::trim(ls[n - 1]);
        let st2 = format_step(st, ls[n - 1], unit);
        assert(st2 == format_scan(ls, n, unit));
        let l = st2.lines.last();
        if t.len() == 0 {
            if !st.blank && st.lines.len() > 0 {
                assert(crate::text::trim_start(l) =~= Seq::<char>::empty());
            }
        } else if starts_with(t, "#"@) {
            lemma_trimmed(ls[n - 1]);
        } else {
            lemma_trimmed(ls[n - 1]);
            let c = cleaned_line(t);
            lemma_cleaned_first(t);
            assert(c[0] == t[0]);
            assert(t[0] != '#') by {
                if t[0] == '#' {
                    assert(t.take(1) =~= "#"@);
                }
            }
            assert(forall|j: int| 0 <= j < unit.len() ==> crate::text::is_ws(#[trigger] unit[j]));
            let k = crate::format::line_indent(c, st.indent);
            lemma_repeat_ws(unit, k);
            lemma_trim_start_after_ws(crate::format::repeat(unit, k), c);
            assert(!starts_with(c, "#"@)) by {
                if starts_with(c, "#"@) {
                    assert(c.take(1)[0] == c[0]);
                }
            }
        }
        assert forall|i: int| 0 <= i < st2.lines.len() - 1 implies st2.lines[i] == st.lines[i] by {}
    }
}

proof fn lemma_clean_skip(s: Seq<char>, i: int, k: int, st: bool, p: Option<char>)
    requires
        0 <= i <= s.len(),
        0 <= k,
    ensures
        clean_from(s, i + k, st, p) == clean_from(s.skip(i), k, st, p),
    decreases s.len() - (i + k),
{
    let t = s.skip(i);
    if i + k < s.len() {
        assert(t[k] == s[i + k]);
        if i + k + 1 < s.len() {
            assert(t[k + 1] == s[i + k + 1]);
        }
        assert(t.skip(k) =~= s.skip(i + k));
        let c = s[i + k];
        if c == '"' {
            lemma_clean_skip(s, i, k + 1, !st, Some(c));
        } else if st {
            lemma_clean_skip(s, i, k + 1, st, Some(c));
        } else if c == '/' && i + k + 1 < s.len() && s[i + k + 1] == '/' {
        } else if c == ' ' && p == Some(' ') {
            lemma_clean_skip(s, i, k + 1, st, p);
        } else if c == ',' {
            if i + k + 1 < s.len() && !crate::text::is_ws(s[i + k + 1]) {
                lemma_clean_skip(s, i, k + 1, st, Some(' '));
            } else {
                lemma_clean_skip(s, i, k + 1, st, Some(','));
            }
        } else if c == ')' {
            if i + k + 1 < s.len() && s[i + k + 1] == '{' {
                lemma_clean_skip(s, i, k + 1, st, Some(' '));
            } else {
                lemma_clean_skip(s, i, k + 1, st, Some(')'));
            }
        } else if c == '{' && p is Some && !crate::text::is_ws(p.unwrap()) {
            lemma_clean_skip(s, i, k + 1, st, Some('{'));
        } else {
            lemma_clean_skip(s, i, k + 1, st, Some(c));
        }
    }
}

/// The first character the cleaner puts out from index `i` (when it puts
/// out one and does not drop a doubled space there).
proof fn lemma_clean_first_out(s: Seq<char>, i: int, st: bool, p: Option<char>)
    requires
        0 <= i < s.len(),
        !(s[i] == ' ' && p == Some(' ') && !st && s[i] != '"'),
    ensures
        clean_from(s, i, st, p).len() > 0,
        clean_from(s, i, st, p)[0] == (if s[i] == '{' && !st && p is Some && !crate::text::is_ws(p.unwrap()) {
            ' '
        } else {
            s[i]
        }),
{
}

proof fn lemma_clean_stable(s: Seq<char>, i: int, st: bool, p: Option<char>)
    requires
        0 <= i,
    ensures
        clean_from(clean_from(s, i, st, p), 0, st, p) == clean_from(s, i, st, p),
    decreases s.len() - i,
{
    let o = clean_from(s, i, st, p);
    if i < s.len() {
        let c = s[i];
        if c == '"' {
            lemma_clean_stable(s, i + 1, !st, Some(c));
            lemma_clean_skip(o, 1, 0, !st, Some(c));
            assert(o.skip(1) =~= clean_from(s, i + 1, !st, Some(c)));
        } else if st {
            lemma_clean_stable(s, i + 1, st, Some(c));
            lemma_clean_skip(o, 1, 0, st, Some(c));
            assert(o.skip(1) =~= clean_from(s, i + 1, st, Some(c)));
        } else if c == '/' && i + 1 < s.len() && s[i + 1] == '/' {
            assert(o[0] == '/' && o[1] == '/');
            assert(o.skip(0) =~= o);
        } else if c == ' ' && p == Some(' ') {
            lemma_clean_stable(s, i + 1, st, p);
        } else if c == ',' {
            if i + 1 < s.len() && !crate::text::is_ws(s[i + 1]) {
                let r = clean_from(s, i + 1, st, Some(' '));
                lemma_clean_stable(s, i + 1, st, Some(' '));
                assert(o[1] == ' ');
                lemma_clean_skip(o, 1, 0, st, Some(','));
                let o1 = o.skip(1);
                assert(o1[0] == ' ');
                lemma_clean_skip(o1, 1, 0, st, Some(' '));
                assert(o1.skip(1) =~= r);
                lemma_clean_skip(o, 2, 0, st, Some(' '));
            } else {
                let r = clean_from(s, i + 1, st, Some(','));
                lemma_clean_stable(s, i + 1, st, Some(','));
                if i + 1 < s.len() {
                    lemma_clean_first_out(s, i + 1, st, Some(','));
                    assert(o[1] == r[0]);
                }
                lemma_clean_skip(o, 1, 0, st, Some(','));
                assert(o.skip(1) =~= r);
            }
        } else if c == ')' {
            if i + 1 < s.len() && s[i + 1] == '{' {
                let r = clean_from(s, i + 1, st, Some(' '));
                lemma_clean_stable(s, i + 1, st, Some(' '));
                assert(o[1] == ' ');
                lemma_clean_skip(o, 1, 0, st, Some(')'));
                let o1 = o.skip(1);
                assert(o1[0] == ' ');
                lemma_clean_skip(o1, 1, 0, st, Some(' '));
                assert(o1.skip(1) =~= r);
            } else {
                let r = clean_from(s, i + 1, st, Some(')'));
                lemma_clean_stable(s, i + 1, st, Some(')'));
                if i + 1 < s.len() {
                    lemma_clean_first_out(s, i + 1, st, Some(')'));
                    assert(o[1] == r[0]);
                }
                lemma_clean_skip(o, 1, 0, st, Some(')'));
                assert(o.skip(1) =~= r);
            }
        } else if c == '{' && p is Some && !crate::text::is_ws(p.unwrap()) {
            let r = clean_from(s, i + 1, st, Some('{'));
            lemma_clean_stable(s, i + 1, st, Some('{'));
            assert(o[0] == ' ' && o[1] == '{');
            lemma_clean_skip(o, 1, 0, st, Some(' '));
            let o1 = o.skip(1);
            assert(o1[0] == '{');
            lemma_clean_skip(o1, 1, 0, st, Some('{'));
            assert(o1.skip(1) =~= r);
        } else {
            let r = clean_from(s, i + 1, st, Some(c));
            lemma_clean_stable(s, i + 1, st, Some(c));
            if c == '/' && i + 1 < s.len() {
                lemma_clean_first_out(s, i + 1, st, Some(c));
                assert(o[1] == r[0]);
            }
            lemma_clean_skip(o, 1, 0, st, Some(c));
            assert(o.skip(1) =~= r);
        }
    }
}

#[verifier::rlimit(60)]
proof fn lemma_clean_rewrite_if(t: Seq<char>)
    requires
        starts_with(clean_from(t, 0, false, None), "if("@),
    ensures
        cleaned_line(cleaned_line(t)) == cleaned_line(t),
{
    reveal_strlit("if(");
    reveal_strlit("for(");
    reveal_strlit("while(");
    reveal_strlit("if (");
    reveal_strlit("for (");
    reveal_strlit("while (");
    let r = clean_from(t, 0, false, None);
    lemma_clean_stable(t, 0, false, None);
    let rest = r.skip(3);
    let c = "if ("@ + rest;
    assert(c == cleaned_line(t));
    assert(r[0] == r.take(3)[0]);
    assert(r[1] == r.take(3)[1]);
    assert(r[2] == r.take(3)[2]);
    assert(clean_from(r, 0, false, None) == seq![r[0]] + clean_from(r, 1, false, Some(r[0])));
    assert(clean_from(r, 1, false, Some(r[0])) == seq![r[1]] + clean_from(r, 2, false, Some(r[1])));
    assert(clean_from(r, 2, false, Some(r[1])) == seq![r[2]] + clean_from(r, 3, false, Some(r[2])));
    assert(clean_from(r, 0, false, None) =~= r.take(3) + clean_from(r, 3, false, Some('(')));
    assert(clean_from(r, 3, false, Some('(')) =~= rest);
    assert(clean_from(c, 0, false, None) == seq![c[0]] + clean_from(c, 1, false, Some(c[0])));
    assert(clean_from(c, 1, false, Some(c[0])) == seq![c[1]] + clean_from(c, 2, false, Some(c[1])));
    assert(clean_from(c, 2, false, Some(c[1])) == seq![c[2]] + clean_from(c, 3, false, Some(c[2])));
    assert(clean_from(c, 3, false, Some(c[2])) == seq![c[3]] + clean_from(c, 4, false, Some(c[3])));
    lemma_clean_skip(c, 4, 0, false, Some('('));
    lemma_clean_skip(r, 3, 0, false, Some('('));
    assert(c.skip(4) =~= rest);
    assert(clean_from(c, 0, false, None) =~= c);
    assert(c.take(3) != "if("@) by {
        assert(c.take(3)[2] == ' ');
    }
    assert(!starts_with(c, "if("@)) by {
        if starts_with(c, "if("@) {
            assert(c.take(3)[0] == c[0]);
            assert(c.take(3)[2] == c[2]);
        }
    }
    assert(!starts_with(c, "for("@)) by {
        if starts_with(c, "for("@) {
            assert(c.take(4)[0] == c[0]);
            assert(c.take(4)[3] == c[3]);
        }
    }
    assert(!starts_with(c, "while("@)) by {
        if starts_with(c, "while("@) {
            assert(c.take(6)[0] == c[0]);
            assert(c.take(6)[5] == c[5]);
        }
    }
}

#[verifier::rlimit(60)]
proof fn lemma_clean_rewrite_for(t: Seq<char>)
    requires
        starts_with(clean_from(t, 0, false, None), "for("@),
        !starts_with(clean_from(t, 0, false, None), "if("@),
    ensures
        cleaned_line(cleaned_line(t)) == cleaned_line(t),
{
    reveal_strlit("if(");
    reveal_strlit("for(");
    reveal_strlit("while(");
    reveal_strlit("if (");
    reveal_strlit("for (");
    reveal_strlit("while (");
    let r = clean_from(t, 0, false, None);
    lemma_clean_stable(t, 0, false, None);
    let rest = r.skip(4);
    let c = "for ("@ + rest;
    assert(c == cleaned_line(t));
    assert(r[0] == r.take(4)[0]);
    assert(r[1] == r.take(4)[1]);
    assert(r[2] == r.take(4)[2]);
    assert(r[3] == r.take(4)[3]);
    assert(clean_from(r, 0, false, None) == seq![r[0]] + clean_from(r, 1, false, Some(r[0])));
    assert(clean_from(r, 1, false, Some(r[0])) == seq![r[1]] + clean_from(r, 2, false, Some(r[1])));
    assert(clean_from(r, 2, false, Some(r[1])) == seq![r[2]] + clean_from(r, 3, false, Some(r[2])));
    assert(clean_from(r, 3, false, Some(r[2])) == seq![r[3]] + clean_from(r, 4, false, Some(r[3])));
    assert(clean_from(r, 0, false, None) =~= r.take(4) + clean_from(r, 4, false, Some('(')));
    assert(clean_from(r, 4, false, Some('(')) =~= rest);
    assert(clean_from(c, 0, false, None) == seq![c[0]] + clean_from(c, 1, false, Some(c[0])));
    assert(clean_from(c, 1, false, Some(c[0])) == seq![c[1]] + clean_from(c, 2, false, Some(c[1])));
    assert(clean_from(c, 2, false, Some(c[1])) == seq![c[2]] + clean_from(c, 3, false, Some(c[2])));
    assert(clean_from(c, 3, false, Some(c[2])) == seq![c[3]] + clean_from(c, 4, false, Some(c[3])));
    assert(clean_from(c, 4, false, Some(c[3])) == seq![c[4]] + clean_from(c, 5, false, Some(c[4])));
    lemma_clean_skip(c, 5, 0, false, Some('('));
    lemma_clean_skip(r, 4, 0, false, Some('('));
    assert(c.skip(5) =~= rest);
    assert(clean_from(c, 0, false, None) =~= c);
    assert(c.take(4) != "for("@) by {
        assert(c.take(4)[3] == ' ');
    }
    assert(!starts_with(c, "if("@)) by {
        if starts_with(c, "if("@) {
            assert(c.take(3)[0] == c[0]);
            assert(c.take(3)[2] == c[2]);
        }
    }
    assert(!starts_with(c, "for("@)) by {
        if starts_with(c, "for("@) {
            assert(c.take(4)[0] == c[0]);
            assert(c.take(4)[3] == c[3]);
        }
    }
    assert(!starts_with(c, "while("@)) by {
        if starts_with(c, "while("@) {
            assert(c.take(6)[0] == c[0]);
            assert(c.take(6)[5] == c[5]);
        }
    }
}

#[verifier::rlimit(60)]
proof fn lemma_clean_rewrite_while(t: Seq<char>)
    requires
        starts_with(clean_from(t, 0, false, None), "while("@),
        !starts_with(clean_from(t, 0, false, None), "if("@),
        !starts_with(clean_from(t, 0, false, None), "for("@),
    ensures
        cleaned_line(cleaned_line(t)) == cleaned_line(t),
{
    reveal_strlit("if(");
    reveal_strlit("for(");
    reveal_strlit("while(");
    reveal_strlit("if (");
    reveal_strlit("for (");
    reveal_strlit("while (");
    let r = clean_from(t, 0, false, None);
    lemma_clean_stable(t, 0, false, None);
    let rest = r.skip(6);
    let c = "while ("@ + rest;
    assert(c == cleaned_line(t));
    assert(r[0] == r.take(6)[0]);
    assert(r[1] == r.take(6)[1]);
    assert(r[2] == r.take(6)[2]);
    assert(r[3] == r.take(6)[3]);
    assert(r[4] == r.take(6)[4]);
    assert(r[5] == r.take(6)[5]);
    assert(clean_from(r, 0, false, None) == seq![r[0]] + clean_from(r, 1, false, Some(r[0])));
    assert(clean_from(r, 1, false, Some(r[0])) == seq![r[1]] + clean_from(r, 2, false, Some(r[1])));
    assert(clean_from(r, 2, false, Some(r[1])) == seq![r[2]] + clean_from(r, 3, false, Some(r[2])));
    assert(clean_from(r, 3, false, Some(r[2])) == seq![r[3]] + clean_from(r, 4, false, Some(r[3])));
    assert(clean_from(r, 4, false, Some(r[3])) == seq![r[4]] + clean_from(r, 5, false, Some(r[4])));
    assert(clean_from(r, 5, false, Some(r[4])) == seq![r[5]] + clean_from(r, 6, false, Some(r[5])));
    assert(clean_from(r, 0, false, None) =~= r.take(6) + clean_from(r, 6, false, Some('(')));
    assert(clean_from(r, 6, false, Some('(')) =~= rest);
    assert(clean_from(c, 0, false, None) == seq![c[0]] + clean_from(c, 1, false, Some(c[0])));
    assert(clean_from(c, 1, false, Some(c[0])) == seq![c[1]] + clean_from(c, 2, false, Some(c[1])));
    assert(clean_from(c, 2, false, Some(c[1])) == seq![c[2]] + clean_from(c, 3, false, Some(c[2])));
    assert(clean_from(c, 3, false, Some(c[2])) == seq![c[3]] + clean_from(c, 4, false, Some(c[3])));
    assert(clean_from(c, 4, false, Some(c[3])) == seq![c[4]] + clean_from(c, 5, false, Some(c[4])));
    assert(clean_from(c, 5, false, Some(c[4])) == seq![c[5]] + clean_from(c, 6, false, Some(c[5])));
    assert(clean_from(c, 6, false, Some(c[5])) == seq![c[6]] + clean_from(c, 7, false, Some(c[6])));
    lemma_clean_skip(c, 7, 0, false, Some('('));
    lemma_clean_skip(r, 6, 0, false, Some('('));
    assert(c.skip(7) =~= rest);
    assert(clean_from(c, 0, false, None) =~= c);
    assert(c.take(6) != "while("@) by {
        assert(c.take(6)[5] == ' ');
    }
    assert(!starts_with(c, "if("@)) by {
        if starts_with(c, "if("@) {
            assert(c.take(3)[0] == c[0]);
            assert(c.take(3)[2] == c[2]);
        }
    }
    assert(!starts_with(c, "for("@)) by {
        if starts_with(c, "for("@) {
            assert(c.take(4)[0] == c[0]);
            assert(c.take(4)[3] == c[3]);
        }
    }
    assert(!starts_with(c, "while("@)) by {
        if starts_with(c, "while("@) {
            assert(c.take(6)[0] == c[0]);
            assert(c.take(6)[5] == c[5]);
        }
    }
}

/// Cleaning a line twice gives what cleaning it once gives.
pub proof fn law_clean_line_idempotent(t: Seq<char>)
    ensures
        cleaned_line(cleaned_line(t)) == cleaned_line(t),
{
    reveal_strlit("if(");
    reveal_strlit("for(");
    reveal_strlit("while(");
    reveal_strlit("if (");
    reveal_strlit("for (");
    reveal_strlit("while (");
    let r = clean_from(t, 0, false, None);
    lemma_clean_stable(t, 0, false, None);
    if starts_with(r, "if("@) {
        lemma_clean_rewrite_if(t);
    } else if starts_with(r, "for("@) {
        lemma_clean_rewrite_for(t);
    } else if starts_with(r, "while("@) {
        lemma_clean_rewrite_while(t);
    } else {
        assert(cleaned_line(t) == r);
        assert(clean_from(r, 0, false, None) == r);
    }
}

/// The number of line breaks in `s` from index `i` on.
pub open spec fn newlines_from(s: Seq<char>, i: int) -> nat
    decreases s.len() - i,
{
    if i < 0 || i >= s.len() {
        0
    } else {
        newlines_from(s, i + 1) + if s[i] == '\n' {
            1nat
        } else {
            0nat
        }
    }
}

proof fn lemma_scan_plain(s: Seq<char>, i: int, st: crate::lexical::CommentScan, tl: nat, tc: nat)
    requires
        0 <= i,
        !crate::lexical::inside(st),
        !s.contains('/'),
        !s.contains('"'),
    ensures
        !crate::lexical::comment_scan(s, i, st, tl, tc),
    decreases s.len() - i,
{
    if i < s.len() && !(st.line == tl && st.col >= tc) {
        assert(s[i] != '/' && s[i] != '"') by {
            if s[i] == '/' || s[i] == '"' {
                assert(s.contains(s[i]));
            }
        }
        let c = s[i];
        if c == '\n' {
            if st.line + 1 <= tl {
                lemma_scan_plain(s, i + 1, crate::lexical::CommentScan { line: st.line + 1, col: 0, in_line_comment: false, ..st }, tl, tc);
            }
        } else {
            lemma_scan_plain(s, i + 1, crate::lexical::CommentScan { col: st.col + 1, ..st }, tl, tc);
        }
    }
}

proof fn lemma_scan_past(s: Seq<char>, i: int, st: crate::lexical::CommentScan, tl: nat, tc: nat)
    requires
        0 <= i,
        st.line + newlines_from(s, i) < tl,
    ensures
        !crate::lexical::comment_scan(s, i, st, tl, tc),
    decreases s.len() - i,
{
    if i < s.len() {
        let c = s[i];
        let st1 = crate::lexical::CommentScan { col: st.col + 1, ..st };
        if c == '\n' {
            lemma_scan_past(s, i + 1, crate::lexical::CommentScan { line: st.line + 1, col: 0, in_line_comment: false, ..st }, tl, tc);
        } else {
            assert(newlines_from(s, i) == newlines_from(s, i + 1));
            if i + 1 < s.len() && (s[i + 1] == '/' || s[i + 1] == '*') {
                assert(newlines_from(s, i + 1) == newlines_from(s, i + 2));
                lemma_scan_past(s, i + 2, crate::lexical::CommentScan { col: st1.col + 1, in_block_comment: false, ..st1 }, tl, tc);
                lemma_scan_past(s, i + 2, crate::lexical::CommentScan { col: st1.col + 1, in_line_comment: true, ..st1 }, tl, tc);
                lemma_scan_past(s, i + 2, crate::lexical::CommentScan { col: st1.col + 1, in_block_comment: true, ..st1 }, tl, tc);
            }
            lemma_scan_past(s, i + 1, st1, tl, tc);
            lemma_scan_past(s, i + 1, crate::lexical::CommentScan { escaped: false, ..st1 }, tl, tc);
            lemma_scan_past(s, i + 1, crate::lexical::CommentScan { escaped: true, ..st1 }, tl, tc);
            lemma_scan_past(s, i + 1, crate::lexical::CommentScan { in_string: false, ..st1 }, tl, tc);
            lemma_scan_past(s, i + 1, crate::lexical::CommentScan { in_string: true, ..st1 }, tl, tc);
        }
    }
}

/// A text without `/` and `"` has no comment or string, so no position is
/// inside one; and a line past the last line break of the text is inside
/// none either.
pub proof fn law_plain_text_not_in_comment(s: Seq<char>, tl: nat, tc: nat)
    ensures
        !s.contains('/') && !s.contains('"') ==> !in_comment_or_string(s, tl, tc),
        tl > newlines_from(s, 0) ==> !in_comment_or_string(s, tl, tc),
{
    if !s.contains('/') && !s.contains('"') {
        lemma_scan_plain(s, 0, crate::lexical::scan_start(), tl, tc);
    }
    if tl > newlines_from(s, 0) {
        lemma_scan_past(s, 0, crate::lexical::scan_start(), tl, tc);
    }
}

/// Line `k` exists in both lists or in neither, and trimmed they agree.
pub open spec fn trim_agree(la: Seq<Seq<char>>, lb: Seq<Seq<char>>, k: int) -> bool {
    (k < la.len() <==> k < lb.len()) && (k < la.len() ==> crate::text::trim(la[k]) == crate::text::trim(lb[k]))
}

proof fn lemma_directives_trimmed(la: Seq<Seq<char>>, lb: Seq<Seq<char>>, i: int, d: TargetApi, e: crate::config::FormatterEngine)
    requires
        0 <= i,
        forall|k: int| 0 <= k < 10 ==> #[trigger] trim_agree(la, lb, k),
    ensures
        crate::config::target_from(la, i, d) == crate::config::target_from(lb, i, d),
        crate::config::engine_from(la, i, e) == crate::config::engine_from(lb, i, e),
    decreases 10 - i,
{
    if i < 10 {
        assert(trim_agree(la, lb, i));
        lemma_directives_trimmed(la, lb, i + 1, d, e);
    }
}

proof fn lemma_trim_drop_ws(s: Seq<char>)
    requires
        s.len() > 0,
        crate::text::is_ws(s.last()),
    ensures
        crate::text::trim(s) == crate::text::trim(s.drop_last()),
{
    let ws = crate::text::ws_pred();
    let d = s.drop_last();
    crate::text::lemma_lead_facts(d, ws);
    let a = crate::text::lead(d, ws);
    if a < d.len() {
        assert forall|j: int| 0 <= j < a implies #[trigger] ws(s[j]) by {
            assert(s[j] == d[j]);
        }
        assert(s[a as int] == d[a as int]);
        crate::text::lemma_lead(s, ws, a as int);
        let w = d.skip(a as int);
        assert(s.skip(a as int) =~= w.push(s.last()));
        assert(w.push(s.last()).drop_last() =~= w);
        crate::text::lemma_trail_facts(w, ws);
        assert(crate::text::trail(w.push(s.last()), ws) == 1 + crate::text::trail(w, ws));
        assert(w.push(s.last()).take(w.len() - crate::text::trail(w, ws)) =~= w.take(w.len() - crate::text::trail(w, ws)));
    } else {
        assert forall|j: int| 0 <= j < s.len() implies #[trigger] ws(s[j]) by {
            if j < d.len() {
                assert(s[j] == d[j]);
            }
        }
        crate::text::lemma_lead(s, ws, s.len() as int);
        assert(crate::text::trim_start(s) =~= Seq::<char>::empty());
        assert(crate::text::trim_start(d) =~= Seq::<char>::empty());
        assert(crate::text::trim_end(Seq::<char>::empty()) =~= Seq::<char>::empty());
    }
}

proof fn lemma_trim_strip_cr(l: Seq<char>)
    ensures
        crate::text::trim(crate::text::strip_cr(l)) == crate::text::trim(l),
{
    if l.len() > 0 && l.last() == '\r' {
        lemma_trim_drop_ws(l);
    }
}

proof fn lemma_newline_at_end(t: Seq<char>, x: Seq<char>)
    ensures
        crate::text::match_at(t + "\n"@ + x, seq!['\n'], t.len() as int),
        forall|j: int| 0 <= j < t.len() ==> (t + "\n"@ + x)[j] == t[j],
{
    reveal_strlit("\n");
    let u = t + "\n"@ + x;
    assert(u.subrange(t.len() as int, t.len() + 1int) =~= seq!['\n']);
}

#[verifier::rlimit(40)]
proof fn lemma_lines_append_some(t: Seq<char>, x: Seq<char>, i: int)
    requires
        crate::text::find(t, seq!['\n']) == Some(i),
    ensures
        crate::text::lines_of(t).len() <= crate::text::lines_of(t + "\n"@ + x).len(),
        forall|k: int|
            0 <= k < crate::text::lines_of(t).len() ==> {
                let a = crate::text::lines_of(t)[k];
                let b = #[trigger] crate::text::lines_of(t + "\n"@ + x)[k];
                b == a || b == crate::text::strip_cr(a)
            },
    decreases t.len(), 0int,
{
    let nl = seq!['\n'];
    let u = t + "\n"@ + x;
    crate::text::lemma_find_from_facts(t, nl, 0);
    lemma_newline_at_end(t, x);
    crate::text::lemma_find_agree(t, u, nl, t.len() as int);
    let rt = t.skip(i + 1);
    assert(u.take(i) =~= t.take(i));
    assert(u.skip(i + 1) =~= rt + "\n"@ + x);
    lemma_lines_append(rt, x);
    let L = crate::text::lines_of(t);
    let M = crate::text::lines_of(u);
    assert(L =~= seq![crate::text::strip_cr(t.take(i))] + crate::text::lines_of(rt));
    assert(M =~= seq![crate::text::strip_cr(t.take(i))] + crate::text::lines_of(rt + "\n"@ + x));
    assert forall|k: int| 0 <= k < L.len() implies {
        let a = L[k];
        let b = #[trigger] M[k];
        b == a || b == crate::text::strip_cr(a)
    } by {
        if k > 0 {
            assert(L[k] == crate::text::lines_of(rt)[k - 1]);
            assert(M[k] == crate::text::lines_of(rt + "\n"@ + x)[k - 1]);
        }
    }
}

#[verifier::rlimit(40)]
proof fn lemma_lines_append_none(t: Seq<char>, x: Seq<char>)
    requires
        t.len() > 0,
        crate::text::find(t, seq!['\n']) is None,
    ensures
        crate::text::lines_of(t).len() <= crate::text::lines_of(t + "\n"@ + x).len(),
        forall|k: int|
            0 <= k < crate::text::lines_of(t).len() ==> {
                let a = crate::text::lines_of(t)[k];
                let b = #[trigger] crate::text::lines_of(t + "\n"@ + x)[k];
                b == a || b == crate::text::strip_cr(a)
            },
{
    let nl = seq!['\n'];
    let u = t + "\n"@ + x;
    crate::text::lemma_find_from_facts(t, nl, 0);
    crate::text::lemma_find_from_facts(u, nl, 0);
    lemma_newline_at_end(t, x);
    match crate::text::find(u, nl) {
        Some(i2) => {
            if i2 < t.len() {
                assert(crate::text::match_at(t, nl, i2)) by {
                    assert(t.subrange(i2, i2 + 1) =~= u.subrange(i2, i2 + 1));
                }
            }
        },
        None => {},
    }
    assert(crate::text::find(u, nl) == Some(t.len() as int));
    assert(u.take(t.len() as int) =~= t);
    assert(crate::text::lines_of(t) =~= seq![t]);
}

/// The lines of `t` followed by a line break and `x` begin with the lines of
/// `t`, the last of them possibly without a final carriage return.
proof fn lemma_lines_append(t: Seq<char>, x: Seq<char>)
    ensures
        crate::text::lines_of(t).len() <= crate::text::lines_of(t + "\n"@ + x).len(),
        forall|k: int|
            0 <= k < crate::text::lines_of(t).len() ==> {
                let a = crate::text::lines_of(t)[k];
                let b = #[trigger] crate::text::lines_of(t + "\n"@ + x)[k];
                b == a || b == crate::text::strip_cr(a)
            },
    decreases t.len(), 1int,
{
    if t.len() > 0 {
        match crate::text::find(t, seq!['\n']) {
            Some(i) => lemma_lines_append_some(t, x, i),
            None => lemma_lines_append_none(t, x),
        }
    }
}

/// A text of ten lines or more keeps its target API and its formatter when
/// a line is appended to it.
pub proof fn law_appended_line_keeps_directives(
    t: Seq<char>,
    x: Seq<char>,
    d: TargetApi,
    e: crate::config::FormatterEngine,
)
    requires
        crate::text::lines_of(t).len() >= 10,
    ensures
        crate::config::target_from(crate::text::lines_of(t + "\n"@ + x), 0, d) == crate::config::target_from(
            crate::text::lines_of(t),
            0,
            d,
        ),
        crate::config::engine_from(crate::text::lines_of(t + "\n"@ + x), 0, e) == crate::config::engine_from(
            crate::text::lines_of(t),
            0,
            e,
        ),
{
    let L = crate::text::lines_of(t);
    let M = crate::text::lines_of(t + "\n"@ + x);
    lemma_lines_append(t, x);
    assert forall|k: int| 0 <= k < 10 implies #[trigger] trim_agree(M, L, k) by {
        let b = M[k];
        lemma_trim_strip_cr(L[k]);
    }
    lemma_directives_trimmed(M, L, 0, d, e);
}

/// The first line put out, if any, starts with a character other than white
/// space; nothing is indented before it.
pub open spec fn first_line_flush(st: FormatState) -> bool {
    &&& (st.lines.len() == 0 ==> st.indent == 0)
    &&& (st.lines.len() > 0 ==> st.lines[0].len() > 0 && !crate::text::is_ws(st.lines[0][0]))
}

proof fn lemma_format_first_line(ls: Seq<Seq<char>>, n: nat, unit: Seq<char>)
    ensures
        first_line_flush(format_scan(ls, n, unit)),
    decreases n,
{
    reveal_strlit("#");
    if n > 0 && n <= ls.len() {
        lemma_format_first_line(ls, (n - 1) as nat, unit);
        let st = format_scan(ls, (n - 1) as nat, unit);
        let t = crate::text::trim(ls[n - 1]);
        let st2 = format_step(st, ls[n - 1], unit);
        if st.lines.len() == 0 && t.len() > 0 {
            lemma_trimmed(ls[n - 1]);
            if !starts_with(t, "#"@) {
                let c = cleaned_line(t);
                lemma_cleaned_first(t);
                assert(crate::format::line_indent(c, 0) == 0);
                assert(crate::format::repeat(unit, 0) =~= Seq::<char>::empty());
                assert(st2.lines[0] =~= c);
            } else {
                assert(st2.lines[0] == t);
            }
        } else if st.lines.len() > 0 {
            assert(st2.lines[0] == st.lines[0]);
        }
    }
}

pub(crate) proof fn lemma_join_first(ls: Seq<Seq<char>>, sep: Seq<char>)
    requires
        ls.len() > 0,
    ensures
        ls[0].len() <= crate::text::join(ls, sep).len(),
        forall|k: int| 0 <= k < ls[0].len() ==> #[trigger] crate::text::join(ls, sep)[k] == ls[0][k],
    decreases ls.len(),
{
    if ls.len() > 1 {
        lemma_join_first(ls.drop_last(), sep);
        let j = crate::text::join(ls.drop_last(), sep);
        assert(ls.drop_last()[0] == ls[0]);
        assert forall|k: int| 0 <= k < ls[0].len() implies #[trigger] crate::text::join(ls, sep)[k] == ls[0][k] by {
            assert(crate::text::join(ls, sep) == j + sep + ls.last());
            assert((j + sep + ls.last())[k] == j[k]);
        }
    }
}

/// The formatted text keeps a final line break, and starts with a line break
/// only when it is nothing but one.
pub proof fn law_format_text_ends(text: Seq<char>, tab_size: nat, insert_spaces: bool)
    ensures
        ends_with(text, "\n"@) ==> ends_with(crate::format::formatted(text, tab_size, insert_spaces), "\n"@),
        crate::format::formatted(text, tab_size, insert_spaces).len() > 0 && crate::format::formatted(
            text,
            tab_size,
            insert_spaces,
        )[0] == '\n' ==> crate::format::formatted(text, tab_size, insert_spaces) == "\n"@,
{
    reveal_strlit("\n");
    let ls = crate::text::lines_of(text);
    let unit = crate::format::indent_unit(tab_size, insert_spaces);
    let st = format_scan(ls, ls.len(), unit);
    let j = crate::text::join(st.lines, "\n"@);
    let r = crate::format::formatted(text, tab_size, insert_spaces);
    let suffix: Seq<char> = if ends_with(text, "\n"@) { "\n"@ } else { seq![] };
    assert(r == j + suffix);
    if ends_with(text, "\n"@) {
        assert(r.take(r.len() - 1) =~= j);
        assert(r.skip(r.len() - 1) =~= "\n"@);
    }
    lemma_format_first_line(ls, ls.len(), unit);
    if st.lines.len() > 0 {
        lemma_join_first(st.lines, "\n"@);
        assert(r[0] == j[0]);
        assert(j[0] == st.lines[0][0]);
    } else {
        assert(j =~= Seq::<char>::empty());
        assert(r =~= suffix);
    }
}

} // verus!
