//! Color literals in shader text: `vec3(...)` and `vec4(...)` constructors
//! with three or four arguments, found with their positions.
use vstd::prelude::*;
use crate::symbols::lit;
use crate::text::{
    chars_of, find, find_of, lines_of, lines_of_vec, slice_of, split_char, split_char_of, starts_with,
    starts_with_of, string_of, trim, trim_of, views,
};

verus! {

/// A constructor call that may be a color: its line, start and end columns
/// (the end just after `)`), whether it is a `vec4`, and its arguments.
pub struct ColorCandidate {
    pub line: usize,
    pub start_col: usize,
    pub end_col: usize,
    pub is_vec4: bool,
    pub args: Vec<String>,
}

/// Mathematical value of a [`ColorCandidate`].
pub struct CandidateView {
    pub line: nat,
    pub start_col: nat,
    pub end_col: nat,
    pub is_vec4: bool,
    pub args: Seq<Seq<char>>,
}

impl View for ColorCandidate {
    type V = CandidateView;

    open spec fn view(&self) -> CandidateView {
        CandidateView {
            line: self.line as nat,
            start_col: self.start_col as nat,
            end_col: self.end_col as nat,
            is_vec4: self.is_vec4,
            args: crate::symbols::strings_view(self.args@),
        }
    }
}

pub open spec fn candidates_view(v: Seq<ColorCandidate>) -> Seq<CandidateView> {
    v.map_values(|c: ColorCandidate| c@)
}

/// The first `vec4(` or `vec3(` in `s` (the earlier one; `vec4(` on a tie):
/// its position and whether it is `vec4(`.
pub open spec fn first_constructor(s: Seq<char>) -> Option<(int, bool)> {
    match (find(s, "vec4("@), find(s, "vec3("@)) {
        (Some(p4), Some(p3)) => if p4 <= p3 {
            Some((p4, true))
        } else {
            Some((p3, false))
        },
        (Some(p4), None) => Some((p4, true)),
        (None, Some(p3)) => Some((p3, false)),
        (None, None) => None,
    }
}

/// The color candidates of line `ln` (text `line`) from character `from`
/// on; their columns are byte offsets in the line.
pub open spec fn line_candidates(line: Seq<char>, ln: nat, from: int) -> Seq<CandidateView>
    decreases line.len() - from,
{
    if from < 0 || from >= line.len() {
        seq![]
    } else {
        match first_constructor(line.skip(from)) {
            None => seq![],
            Some(fc) => {
                let start = from + fc.0;
                let args_start = start + 5;
                if fc.0 < 0 || args_start > line.len() {
                    seq![]
                } else {
                    match find(line.skip(args_start), ")"@) {
                        Some(ci) => if ci < 0 || args_start + ci + 1 > line.len() {
                            seq![]
                        } else {
                            let end = args_start + ci + 1;
                            let parts = split_char(line.subrange(args_start, args_start + ci), ',');
                            (if parts.len() == (if fc.1 {
                                4int
                            } else {
                                3int
                            }) {
                                seq![
                                    CandidateView {
                                        line: ln,
                                        start_col: crate::text::byte_col(line, start),
                                        end_col: crate::text::byte_col(line, end),
                                        is_vec4: fc.1,
                                        args: parts,
                                    },
                                ]
                            } else {
                                seq![]
                            }) + line_candidates(line, ln, end)
                        },
                        None => line_candidates(line, ln, args_start),
                    }
                }
            },
        }
    }
}

/// The color candidates of the lines from `i` on (lines that start with a
/// `//` comment have none).
pub open spec fn text_candidates(ls: Seq<Seq<char>>, i: int) -> Seq<CandidateView>
    decreases ls.len() - i,
{
    if i < 0 || i >= ls.len() {
        seq![]
    } else {
        (if starts_with(trim(ls[i]), "//"@) {
            seq![]
        } else {
            line_candidates(ls[i], i as nat, 0)
        }) + text_candidates(ls, i + 1)
    }
}

fn first_constructor_of(s: &Vec<char>) -> (r: Option<(usize, bool)>)
    ensures
        match first_constructor(s@) {
            Some(p) => r matches Some(q) && q.0 == p.0 && q.1 == p.1,
            None => r is None,
        },
{
    let p4 = find_of(s, &lit("vec4("));
    let p3 = find_of(s, &lit("vec3("));
    match (p4, p3) {
        (Some(a), Some(b)) => if a <= b {
            Some((a, true))
        } else {
            Some((b, false))
        },
        (Some(a), None) => Some((a, true)),
        (None, Some(b)) => Some((b, false)),
        (None, None) => None,
    }
}

fn line_candidates_of(line: &Vec<char>, ln: usize, out: &mut Vec<ColorCandidate>)
    ensures
        candidates_view(final(out)@) == candidates_view(old(out)@) + line_candidates(line@, ln as nat, 0),
{
    let ghost o = candidates_view(out@);
    let mut from: usize = 0;
    while from < line.len()
        invariant_except_break
            from <= line.len(),
            candidates_view(out@) + line_candidates(line@, ln as nat, from as int) == o + line_candidates(
                line@,
                ln as nat,
                0,
            ),
        ensures
            candidates_view(out@) == o + line_candidates(line@, ln as nat, 0),
        decreases line.len() - from,
    {
        let rest = slice_of(line, from, line.len());
        assert(rest@ =~= line@.skip(from as int));
        let fc = match first_constructor_of(&rest) {
            Some(fc) => fc,
            None => {
                assert(candidates_view(out@) =~= candidates_view(out@) + Seq::<CandidateView>::empty());
                break;
            },
        };
        proof {
            crate::text::lemma_find_from_facts(rest@, "vec4("@, 0);
            crate::text::lemma_find_from_facts(rest@, "vec3("@, 0);
            reveal_strlit("vec4(");
            reveal_strlit("vec3(");
        }
        let start = from + fc.0;
        let args_start = start + 5;
        let tail = slice_of(line, args_start, line.len());
        assert(tail@ =~= line@.skip(args_start as int));
        match find_of(&tail, &lit(")")) {
            Some(ci) => {
                proof {
                    reveal_strlit(")");
                    crate::text::lemma_find_from_facts(tail@, ")"@, 0);
                }
                let end = args_start + ci + 1;
                let args = slice_of(line, args_start, args_start + ci);
                let parts = split_char_of(&args, ',');
                let want: usize = if fc.1 { 4 } else { 3 };
                let ghost before = candidates_view(out@);
                if parts.len() == want {
                    let strs = crate::symbols::strings_of(&parts);
                    let sb = crate::text::byte_pos_of(line, start);
                    let eb = crate::text::byte_pos_of(line, end);
                    out.push(ColorCandidate { line: ln, start_col: sb, end_col: eb, is_vec4: fc.1, args: strs });
                    assert(candidates_view(out@) =~= before + seq![
                        CandidateView {
                            line: ln as nat,
                            start_col: crate::text::byte_col(line@, start as int),
                            end_col: crate::text::byte_col(line@, end as int),
                            is_vec4: fc.1,
                            args: views(parts@),
                        },
                    ]);
                } else {
                    assert(candidates_view(out@) =~= before + Seq::<CandidateView>::empty());
                }
                from = end;
            },
            None => {
                from = args_start;
            },
        }
    }
}

/// The color candidates of a text, line by line (see [`line_candidates`]).
pub fn find_color_candidates(text: &str) -> (r: Vec<ColorCandidate>)
    ensures
        candidates_view(r@) == text_candidates(lines_of(text@), 0),
{
    let t = chars_of(text);
    let ls = lines_of_vec(&t);
    let mut out: Vec<ColorCandidate> = Vec::new();
    let mut i: usize = 0;
    assert(candidates_view(out@) =~= Seq::<CandidateView>::empty());
    while i < ls.len()
        invariant
            i <= ls.len(),
            views(ls@) == lines_of(text@),
            candidates_view(out@) + text_candidates(views(ls@), i as int) == text_candidates(views(ls@), 0),
        decreases ls.len() - i,
    {
        assert(views(ls@)[i as int] == ls@[i as int]@);
        let ghost before = candidates_view(out@);
        let tr = trim_of(&ls[i]);
        if !starts_with_of(&tr, &lit("//")) {
            line_candidates_of(&ls[i], i, &mut out);
        } else {
            assert(candidates_view(out@) =~= before + Seq::<CandidateView>::empty());
        }
        i = i + 1;
    }
    assert(candidates_view(out@) =~= candidates_view(out@) + Seq::<CandidateView>::empty());
    out
}

pub open spec fn fl_pred() -> spec_fn(char) -> bool {
    |c: char| c == 'f' || c == 'F'
}

/// A color argument as a number is read from: trimmed, without a trailing
/// `f` or `F` suffix.
pub open spec fn color_token_text(token: Seq<char>) -> Seq<char> {
    let t = trim(token);
    t.take(t.len() - crate::text::trail(t, fl_pred()))
}

/// The text of a color argument that is read as a number (see
/// [`color_token_text`]).
pub fn color_token(token: &str) -> (r: String)
    ensures
        r@ == color_token_text(token@),
{
    let t = trim_of(&chars_of(token));
    let mut k: usize = 0;
    while k < t.len() && (t[t.len() - 1 - k] == 'f' || t[t.len() - 1 - k] == 'F')
        invariant
            k <= t.len(),
            forall|j: int| t.len() - k <= j < t.len() ==> #[trigger] fl_pred()(t@[j]),
        decreases t.len() - k,
    {
        k = k + 1;
    }
    proof {
        crate::text::lemma_trail(t@, fl_pred(), k as int);
    }
    string_of(&slice_of(&t, 0, t.len() - k))
}

/// Whether the color at line `ln`, column `col` of a document is written as
/// a `vec4` (true where the document or the line is missing).
pub open spec fn presented_as_vec4(doc: Option<Seq<char>>, ln: nat, col: nat) -> bool {
    match doc {
        None => true,
        Some(d) => if ln < lines_of(d).len() {
            let l = lines_of(d)[ln as int];
            col + 4 <= l.len() && l.subrange(col as int, col + 4int) == "vec4"@
        } else {
            true
        },
    }
}

/// Whether the color presented at line `line_idx`, column `start_col` of a
/// document (if open) is a `vec4`.
pub fn color_is_vec4(doc: Option<&str>, line_idx: usize, start_col: usize) -> (r: bool)
    ensures
        r == presented_as_vec4(crate::symbols::opt_str_view(doc), line_idx as nat, start_col as nat),
{
    match doc {
        None => true,
        Some(d) => {
            let t = chars_of(d);
            let ls = lines_of_vec(&t);
            if line_idx < ls.len() {
                assert(views(ls@)[line_idx as int] == ls@[line_idx as int]@);
                let l = &ls[line_idx];
                if start_col > l.len() || l.len() - start_col < 4 {
                    return false;
                }
                let piece = slice_of(l, start_col, start_col + 4);
                crate::text::eq(&piece, &lit("vec4"))
            } else {
                true
            }
        },
    }
}

} // verus!
