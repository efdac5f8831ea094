//! Character-sequence model of text, and the verified string operations the
//! rest of the library is built from.
//!
//! Text is modelled as `Seq<char>`, the view of `&str` and `String`. Indices
//! into that model count characters; the columns that the library takes and
//! gives (cursor positions, symbol and edit columns) are UTF-8 byte offsets,
//! related to character indices by [`byte_pos`] and [`char_floor`].
use vstd::prelude::*;
use vstd::std_specs::iter::IteratorSpec;

verus! {

/// The Unicode `White_Space` property, which `char::is_whitespace` reports:
/// the 25 code points U+0009..U+000D, U+0020, U+0085, U+00A0, U+1680,
/// U+2000..U+200A, U+2028, U+2029, U+202F, U+205F and U+3000.
pub open spec fn is_ws(c: char) -> bool {
    let u = c as u32;
    ||| 0x09 <= u <= 0x0D
    ||| u == 0x20
    ||| u == 0x85
    ||| u == 0xA0
    ||| u == 0x1680
    ||| 0x2000 <= u <= 0x200A
    ||| u == 0x2028
    ||| u == 0x2029
    ||| u == 0x202F
    ||| u == 0x205F
    ||| u == 0x3000
}

/// Name for the result of `char::is_alphanumeric` (Unicode `Alphabetic` or `Numeric`).
pub uninterp spec fn is_alnum(c: char) -> bool;

/// Name for the result of `char::is_alphabetic` (Unicode `Alphabetic`).
pub uninterp spec fn is_alpha(c: char) -> bool;

/// Name for the result of `str::to_lowercase` on a string with the given characters.
pub uninterp spec fn to_lower(s: Seq<char>) -> Seq<char>;

/// An ASCII letter.
pub open spec fn ascii_letter(c: char) -> bool {
    ('a' <= c && c <= 'z') || ('A' <= c && c <= 'Z')
}

/// An ASCII decimal digit.
pub open spec fn ascii_digit(c: char) -> bool {
    '0' <= c && c <= '9'
}

/// What `char::is_alphabetic` reports: among ASCII characters exactly the
/// letters; beyond ASCII the Unicode `Alphabetic` property (named `is_alpha`).
pub open spec fn alphabetic(c: char) -> bool {
    if (c as u32) < 0x80 {
        ascii_letter(c)
    } else {
        is_alpha(c)
    }
}

/// What `char::is_alphanumeric` reports: among ASCII characters exactly the
/// letters and digits; beyond ASCII every alphabetic character, and the
/// others that are `Numeric` (the result named `is_alnum`).
pub open spec fn alphanumeric(c: char) -> bool {
    if (c as u32) < 0x80 {
        ascii_letter(c) || ascii_digit(c)
    } else {
        is_alpha(c) || is_alnum(c)
    }
}

/// What `str::to_lowercase` gives: for all-ASCII text the ASCII lower-casing
/// of each character; otherwise the result named `to_lower`.
pub open spec fn lowercase(s: Seq<char>) -> Seq<char> {
    if forall|i: int| 0 <= i < s.len() ==> (#[trigger] s[i] as u32) < 0x80 {
        s.map_values(|c: char| ascii_lower(c))
    } else {
        to_lower(s)
    }
}

/// Whether `c` has the `White_Space` property, as `char::is_whitespace`
/// reports it (see [`is_ws`]).
pub fn char_is_whitespace(c: char) -> (b: bool)
    ensures
        b == is_ws(c),
{
    let u = c as u32;
    (0x09 <= u && u <= 0x0D) || u == 0x20 || u == 0x85 || u == 0xA0 || u == 0x1680 || (0x2000 <= u && u <= 0x200A)
        || u == 0x2028 || u == 0x2029 || u == 0x202F || u == 0x205F || u == 0x3000
}

/// `char::is_alphanumeric`: exact for ASCII; beyond ASCII true of every
/// alphabetic character, and otherwise the named result `is_alnum(c)`,
/// a function of `c` alone (see [`alphanumeric`]).
#[verifier::external_body]
pub(crate) fn char_is_alphanumeric(c: char) -> (b: bool)
    ensures
        b == alphanumeric(c),
        (c as u32) >= 0x80 ==> b == (is_alpha(c) || is_alnum(c)),
{
    c.is_alphanumeric()
}

/// `char::is_alphabetic`: exact for ASCII (the letters); beyond ASCII the
/// named result `is_alpha(c)`, a function of `c` alone (see [`alphabetic`]).
#[verifier::external_body]
pub(crate) fn char_is_alphabetic(c: char) -> (b: bool)
    ensures
        b == alphabetic(c),
        (c as u32) >= 0x80 ==> b == is_alpha(c),
{
    c.is_alphabetic()
}

/// `str::to_lowercase`: ASCII lower-casing for all-ASCII text; otherwise the
/// named result `to_lower(s@)`, a function of the characters of `s` alone
/// (see [`lowercase`]).
#[verifier::external_body]
pub(crate) fn str_to_lowercase(s: &str) -> (r: String)
    ensures
        r@ == lowercase(s@),
        (exists|i: int| 0 <= i < s@.len() && (#[trigger] s@[i] as u32) >= 0x80) ==> r@ == to_lower(s@),
{
    s.to_lowercase()
}

/// `String::push`: appends one character.
#[verifier::external_body]
pub(crate) fn push_char(s: &mut String, c: char)
    ensures
        final(s)@ == old(s)@.push(c),
{
    s.push(c);
}

/// The number of bytes of `s` in UTF-8.
pub open spec fn byte_len(s: Seq<char>) -> nat {
    vstd::utf8::encode_utf8(s).len()
}

/// The number of UTF-8 bytes of one character.
pub open spec fn utf8_width(c: char) -> nat {
    vstd::utf8::encode_scalar(c as u32).len()
}

/// The byte offset of the character at index `k` of `s`.
pub open spec fn byte_pos(s: Seq<char>, k: int) -> nat {
    byte_len(s.take(k))
}

/// The byte offset of the character at index `k` of `s`, as a `usize`
/// (what `str::len` gives for the first `k` characters).
pub open spec fn byte_col(s: Seq<char>, k: int) -> nat {
    (byte_pos(s, k) as usize) as nat
}

/// The number of characters of `s` that end at or before byte offset `b`:
/// the character index of the last character boundary at or before `b`,
/// or the end of `s` when `b` is past it.
pub open spec fn char_floor(s: Seq<char>, b: nat) -> nat
    decreases s.len(),
{
    if s.len() == 0 {
        0
    } else if byte_len(s) <= b {
        s.len()
    } else {
        char_floor(s.drop_last(), b)
    }
}

/// Byte offset `b` lies on a character boundary of `s` (its end included).
pub open spec fn on_boundary(s: Seq<char>, b: nat) -> bool {
    byte_pos(s, char_floor(s, b) as int) == b
}

pub proof fn lemma_encode_append(a: Seq<char>, b: Seq<char>)
    ensures
        vstd::utf8::encode_utf8(a + b) == vstd::utf8::encode_utf8(a) + vstd::utf8::encode_utf8(b),
    decreases a.len(),
{
    if a.len() == 0 {
        assert(a + b =~= b);
        assert(vstd::utf8::encode_utf8(a) =~= Seq::<u8>::empty());
        assert(vstd::utf8::encode_utf8(a) + vstd::utf8::encode_utf8(b) =~= vstd::utf8::encode_utf8(b));
    } else {
        assert((a + b).drop_first() =~= a.drop_first() + b);
        assert((a + b)[0] == a[0]);
        lemma_encode_append(a.drop_first(), b);
        assert(vstd::utf8::encode_utf8(a + b) =~= vstd::utf8::encode_utf8(a) + vstd::utf8::encode_utf8(b));
    }
}

pub proof fn lemma_utf8_width(c: char)
    ensures
        1 <= utf8_width(c) <= 4,
        (c as u32) < 0x80 ==> utf8_width(c) == 1,
        0x80 <= (c as u32) < 0x800 ==> utf8_width(c) == 2,
        0x800 <= (c as u32) < 0x10000 ==> utf8_width(c) == 3,
        0x10000 <= (c as u32) ==> utf8_width(c) == 4,
{
    broadcast use vstd::utf8::char_is_scalar;
    assert(vstd::utf8::is_scalar(c as u32));
}

pub proof fn lemma_byte_pos_step(s: Seq<char>, k: int)
    requires
        0 <= k < s.len(),
    ensures
        byte_pos(s, k + 1) == byte_pos(s, k) + utf8_width(s[k]),
{
    assert(s.take(k + 1) =~= s.take(k) + seq![s[k]]);
    lemma_encode_append(s.take(k), seq![s[k]]);
    let one = seq![s[k]];
    assert(one[0] == s[k]);
    assert(one.drop_first() =~= Seq::<char>::empty());
    assert(vstd::utf8::encode_utf8(one.drop_first()) =~= Seq::<u8>::empty());
    assert(vstd::utf8::encode_utf8(one) =~= vstd::utf8::encode_scalar(s[k] as u32));
}

pub proof fn lemma_byte_pos_zero(s: Seq<char>)
    ensures
        byte_pos(s, 0) == 0,
        byte_pos(s, s.len() as int) == byte_len(s),
{
    assert(s.take(0) =~= Seq::<char>::empty());
    assert(s.take(s.len() as int) =~= s);
}

/// Byte offsets grow with the character index.
pub proof fn lemma_byte_pos_mono(s: Seq<char>, j: int, k: int)
    requires
        0 <= j <= k <= s.len(),
    ensures
        byte_pos(s, j) + (k - j) <= byte_pos(s, k),
    decreases k - j,
{
    if j < k {
        lemma_byte_pos_mono(s, j, k - 1);
        lemma_byte_pos_step(s, k - 1);
        lemma_utf8_width(s[k - 1]);
    }
}

/// Byte offsets below `k` only depend on the first `k` characters.
pub proof fn lemma_byte_pos_take(s: Seq<char>, n: int, k: int)
    requires
        0 <= k <= n <= s.len(),
    ensures
        byte_pos(s.take(n), k) == byte_pos(s, k),
{
    assert(s.take(n).take(k) =~= s.take(k));
}

/// The character index `k` is the floor of byte offset `b` when `b` lies in
/// `[byte_pos(s, k), byte_pos(s, k + 1))`, or past the end with `k` the end.
pub proof fn lemma_char_floor_at(s: Seq<char>, b: nat, k: int)
    requires
        0 <= k <= s.len(),
        byte_pos(s, k) <= b,
        k < s.len() ==> b < byte_pos(s, k + 1),
    ensures
        char_floor(s, b) == k,
    decreases s.len(),
{
    lemma_byte_pos_zero(s);
    if k == s.len() {
    } else {
        lemma_byte_pos_mono(s, k + 1, s.len() as int);
        let t = s.drop_last();
        assert(t =~= s.take(s.len() - 1));
        lemma_byte_pos_take(s, s.len() - 1, k);
        if k + 1 < s.len() {
            lemma_byte_pos_take(s, s.len() - 1, k + 1);
        } else {
            lemma_byte_pos_zero(t);
        }
        lemma_char_floor_at(t, b, k);
    }
}

pub proof fn lemma_char_floor_bounds(s: Seq<char>, b: nat)
    ensures
        char_floor(s, b) <= s.len(),
        byte_pos(s, char_floor(s, b) as int) <= b,
    decreases s.len(),
{
    lemma_byte_pos_zero(s);
    if s.len() > 0 && byte_len(s) > b {
        let t = s.drop_last();
        lemma_char_floor_bounds(t, b);
        assert(t =~= s.take(s.len() - 1));
        lemma_byte_pos_take(s, s.len() - 1, char_floor(t, b) as int);
    }
}

/// A character that may continue an identifier.
pub open spec fn is_ident_char(c: char) -> bool {
    alphanumeric(c) || c == '_'
}

pub open spec fn ws_pred() -> spec_fn(char) -> bool {
    |c: char| is_ws(c)
}

/// Number of leading characters of `s` that satisfy `p`.
pub open spec fn lead(s: Seq<char>, p: spec_fn(char) -> bool) -> nat
    decreases s.len(),
{
    if s.len() > 0 && p(s[0]) {
        1 + lead(s.drop_first(), p)
    } else {
        0
    }
}

/// Number of trailing characters of `s` that satisfy `p`.
pub open spec fn trail(s: Seq<char>, p: spec_fn(char) -> bool) -> nat
    decreases s.len(),
{
    if s.len() > 0 && p(s.last()) {
        1 + trail(s.drop_last(), p)
    } else {
        0
    }
}

pub proof fn lemma_lead(s: Seq<char>, p: spec_fn(char) -> bool, k: int)
    requires
        0 <= k <= s.len(),
        forall|j: int| 0 <= j < k ==> #[trigger] p(s[j]),
        k == s.len() || !p(s[k]),
    ensures
        lead(s, p) == k,
    decreases k,
{
    if k > 0 {
        let t = s.drop_first();
        assert forall|j: int| 0 <= j < k - 1 implies #[trigger] p(t[j]) by {
            assert(t[j] == s[j + 1]);
        }
        if k - 1 < t.len() {
            assert(t[k - 1] == s[k]);
        }
        lemma_lead(t, p, k - 1);
    }
}

pub proof fn lemma_trail(s: Seq<char>, p: spec_fn(char) -> bool, k: int)
    requires
        0 <= k <= s.len(),
        forall|j: int| s.len() - k <= j < s.len() ==> #[trigger] p(s[j]),
        k == s.len() || !p(s[s.len() - 1 - k]),
    ensures
        trail(s, p) == k,
    decreases k,
{
    if k > 0 {
        let t = s.drop_last();
        assert(p(s[s.len() - 1]));
        assert forall|j: int| t.len() - (k - 1) <= j < t.len() implies #[trigger] p(t[j]) by {
            assert(t[j] == s[j]);
        }
        if k - 1 < t.len() {
            assert(t[t.len() - 1 - (k - 1)] == s[s.len() - 1 - k]);
        }
        lemma_trail(t, p, k - 1);
    }
}

pub proof fn lemma_lead_facts(s: Seq<char>, p: spec_fn(char) -> bool)
    ensures
        lead(s, p) <= s.len(),
        forall|j: int| 0 <= j < lead(s, p) ==> #[trigger] p(s[j]),
        lead(s, p) == s.len() || !p(s[lead(s, p) as int]),
    decreases s.len(),
{
    if s.len() > 0 && p(s[0]) {
        let t = s.drop_first();
        lemma_lead_facts(t, p);
        assert forall|j: int| 0 <= j < lead(s, p) implies #[trigger] p(s[j]) by {
            if j > 0 {
                assert(s[j] == t[j - 1]);
            }
        }
        if lead(s, p) < s.len() {
            assert(s[lead(s, p) as int] == t[lead(t, p) as int]);
        }
    }
}

pub proof fn lemma_trail_facts(s: Seq<char>, p: spec_fn(char) -> bool)
    ensures
        trail(s, p) <= s.len(),
        forall|j: int| s.len() - trail(s, p) <= j < s.len() ==> #[trigger] p(s[j]),
        trail(s, p) == s.len() || !p(s[s.len() - 1 - trail(s, p)]),
    decreases s.len(),
{
    if s.len() > 0 && p(s.last()) {
        let t = s.drop_last();
        lemma_trail_facts(t, p);
        assert forall|j: int| s.len() - trail(s, p) <= j < s.len() implies #[trigger] p(s[j]) by {
            if j < s.len() - 1 {
                assert(s[j] == t[j]);
            }
        }
        if trail(s, p) < s.len() {
            assert(s[s.len() - 1 - trail(s, p)] == t[t.len() - 1 - trail(t, p)]);
        }
    }
}

pub proof fn lemma_trim_len(s: Seq<char>)
    ensures
        trim(s).len() <= s.len(),
        trim_start(s).len() <= s.len(),
        trim_end(s).len() <= s.len(),
{
    lemma_lead_facts(s, ws_pred());
    lemma_trail_facts(trim_start(s), ws_pred());
    lemma_trail_facts(s, ws_pred());
}

/// `str::trim_start`.
pub open spec fn trim_start(s: Seq<char>) -> Seq<char> {
    s.skip(lead(s, ws_pred()) as int)
}

/// `str::trim_end`.
pub open spec fn trim_end(s: Seq<char>) -> Seq<char> {
    s.take(s.len() - trail(s, ws_pred()))
}

/// `str::trim`.
pub open spec fn trim(s: Seq<char>) -> Seq<char> {
    trim_end(trim_start(s))
}

/// `str::starts_with` with a string pattern.
pub open spec fn starts_with(s: Seq<char>, p: Seq<char>) -> bool {
    p.len() <= s.len() && s.take(p.len() as int) == p
}

/// `str::ends_with` with a string pattern.
pub open spec fn ends_with(s: Seq<char>, p: Seq<char>) -> bool {
    p.len() <= s.len() && s.skip(s.len() - p.len()) == p
}

/// `p` occurs in `s` at position `i`.
pub open spec fn match_at(s: Seq<char>, p: Seq<char>, i: int) -> bool {
    0 <= i && i + p.len() <= s.len() && s.subrange(i, i + p.len()) == p
}

/// First occurrence of `p` in `s` at or after `k`.
pub open spec fn find_from(s: Seq<char>, p: Seq<char>, k: int) -> Option<int>
    decreases s.len() + 1 - k,
{
    if k < 0 || k + p.len() > s.len() {
        None
    } else if match_at(s, p, k) {
        Some(k)
    } else {
        find_from(s, p, k + 1)
    }
}

/// `str::find` with a string pattern: the first position where `p` occurs.
pub open spec fn find(s: Seq<char>, p: Seq<char>) -> Option<int> {
    find_from(s, p, 0)
}

/// `str::contains` with a string pattern.
pub open spec fn contains(s: Seq<char>, p: Seq<char>) -> bool {
    find(s, p) is Some
}

/// Last occurrence of `p` in `s` at or before `k`.
pub open spec fn rfind_to(s: Seq<char>, p: Seq<char>, k: int) -> Option<int>
    decreases k + 1,
{
    if k < 0 {
        None
    } else if match_at(s, p, k) {
        Some(k)
    } else {
        rfind_to(s, p, k - 1)
    }
}

/// `str::rfind` with a string pattern: the last position where `p` occurs.
pub open spec fn rfind(s: Seq<char>, p: Seq<char>) -> Option<int> {
    rfind_to(s, p, s.len() - p.len())
}

pub proof fn lemma_find_from_skip(s: Seq<char>, p: Seq<char>, k: int, i: int)
    requires
        0 <= k <= i,
        forall|j: int| k <= j < i ==> !#[trigger] match_at(s, p, j),
        i + p.len() <= s.len() + 1,
    ensures
        find_from(s, p, k) == find_from(s, p, i),
    decreases i - k,
{
    if k < i {
        assert(!match_at(s, p, k));
        lemma_find_from_skip(s, p, k + 1, i);
    }
}

pub proof fn lemma_find_from_facts(s: Seq<char>, p: Seq<char>, k: int)
    requires
        0 <= k,
    ensures
        find_from(s, p, k) matches Some(i) ==> k <= i && match_at(s, p, i) && forall|j: int|
            k <= j < i ==> !#[trigger] match_at(s, p, j),
        find_from(s, p, k) is None ==> forall|j: int| k <= j ==> !#[trigger] match_at(s, p, j),
    decreases s.len() + 1 - k,
{
    if k + p.len() > s.len() {
    } else if match_at(s, p, k) {
    } else {
        lemma_find_from_facts(s, p, k + 1);
    }
}

/// Where `s` and `t` agree on their first `l` characters, the first
/// occurrence of `p` found within those characters is the same in both, and
/// an occurrence that ends past them in `s` is none in `t` when `t` ends there.
pub proof fn lemma_find_agree(s: Seq<char>, t: Seq<char>, p: Seq<char>, l: int)
    requires
        0 <= l <= s.len(),
        l <= t.len(),
        forall|k: int| 0 <= k < l ==> s[k] == t[k],
        find(s, p) is Some,
    ensures
        find(s, p).unwrap() + p.len() <= l ==> find(t, p) == find(s, p),
        find(s, p).unwrap() + p.len() > l && t.len() == l ==> find(t, p) is None,
{
    let i = find(s, p).unwrap();
    lemma_find_from_facts(s, p, 0);
    lemma_find_from_facts(t, p, 0);
    assert forall|j: int| 0 <= j && j + p.len() <= l implies match_at(s, p, j) == match_at(t, p, j) by {
        assert(s.subrange(j, j + p.len()) =~= t.subrange(j, j + p.len()));
    }
    if i + p.len() <= l {
        assert(match_at(t, p, i));
        match find(t, p) {
            Some(i2) => {
                if i2 < i {
                    assert(match_at(s, p, i2));
                }
            },
            None => {},
        }
    } else if t.len() == l {
        match find(t, p) {
            Some(i2) => {
                if i2 < i {
                    assert(match_at(s, p, i2));
                }
            },
            None => {},
        }
    }
}

pub proof fn lemma_rfind_to_facts(s: Seq<char>, p: Seq<char>, k: int)
    ensures
        rfind_to(s, p, k) matches Some(i) ==> 0 <= i <= k && match_at(s, p, i) && forall|j: int|
            i < j <= k ==> !#[trigger] match_at(s, p, j),
        rfind_to(s, p, k) is None ==> forall|j: int| j <= k ==> !#[trigger] match_at(s, p, j),
    decreases k + 1,
{
    if k >= 0 && !match_at(s, p, k) {
        lemma_rfind_to_facts(s, p, k - 1);
    }
}

/// Pieces of `s` separated by `c`, as `str::split` with a character pattern gives them.
pub open spec fn split_char(s: Seq<char>, c: char) -> Seq<Seq<char>>
    decreases s.len(),
{
    match find(s, seq![c]) {
        None => seq![s],
        Some(i) => if 0 <= i < s.len() {
            seq![s.take(i)] + split_char(s.skip(i + 1), c)
        } else {
            seq![s]
        },
    }
}

/// `s` without one trailing `'\r'`.
pub open spec fn strip_cr(s: Seq<char>) -> Seq<char> {
    if s.len() > 0 && s.last() == '\r' {
        s.drop_last()
    } else {
        s
    }
}

/// The lines of `s`, as `str::lines` gives them: split at `'\n'`, each line
/// ended by `"\r\n"` loses its `'\r'`, and a final empty piece is dropped.
pub open spec fn lines_of(s: Seq<char>) -> Seq<Seq<char>>
    decreases s.len(),
{
    if s.len() == 0 {
        seq![]
    } else {
        match find(s, seq!['\n']) {
            None => seq![s],
            Some(i) => if 0 <= i < s.len() {
                seq![strip_cr(s.take(i))] + lines_of(s.skip(i + 1))
            } else {
                seq![s]
            },
        }
    }
}

pub open spec fn non_ws_pred() -> spec_fn(char) -> bool {
    |c: char| !is_ws(c)
}

/// The whitespace-separated words of `s`, as `str::split_whitespace` gives them.
pub open spec fn words(s: Seq<char>) -> Seq<Seq<char>>
    decreases s.len(),
{
    if s.len() == 0 {
        seq![]
    } else if is_ws(s[0]) {
        words(s.drop_first())
    } else {
        let n = lead(s, non_ws_pred());
        if n == 0 || n > s.len() {
            seq![]
        } else {
            seq![s.take(n as int)] + words(s.skip(n as int))
        }
    }
}

/// ASCII lower-casing of one character, as `char::to_ascii_lowercase` does it.
pub open spec fn ascii_lower(c: char) -> char {
    if 'A' <= c && c <= 'Z' {
        ((c as u32) + 32) as char
    } else {
        c
    }
}

/// Equality up to ASCII case, as `str::eq_ignore_ascii_case` decides it.
pub open spec fn eq_ignore_ascii_case(a: Seq<char>, b: Seq<char>) -> bool {
    a.len() == b.len() && forall|i: int| 0 <= i < a.len() ==> ascii_lower(#[trigger] a[i]) == ascii_lower(b[i])
}

/// Whether `s` begins with `p` up to ASCII case.
pub open spec fn starts_with_ignore_case(s: Seq<char>, p: Seq<char>) -> bool {
    p.len() <= s.len() && eq_ignore_ascii_case(s.take(p.len() as int), p)
}

/// The pieces of `parts` joined with `sep` between them, as `[String]::join` does it.
pub open spec fn join(parts: Seq<Seq<char>>, sep: Seq<char>) -> Seq<char>
    decreases parts.len(),
{
    if parts.len() == 0 {
        seq![]
    } else if parts.len() == 1 {
        parts[0]
    } else {
        join(parts.drop_last(), sep) + sep + parts.last()
    }
}

/// The character sequences held by a sequence of vectors.
pub open spec fn views(v: Seq<Vec<char>>) -> Seq<Seq<char>> {
    v.map_values(|w: Vec<char>| w@)
}

pub proof fn lemma_filter_push<A>(s: Seq<A>, x: A, p: spec_fn(A) -> bool)
    ensures
        s.push(x).filter(p) == (if p(x) {
            s.filter(p).push(x)
        } else {
            s.filter(p)
        }),
{
    reveal(Seq::filter);
    assert(s.push(x).drop_last() =~= s);
}

pub proof fn lemma_contains_push<A>(s: Seq<A>, x: A, t: A)
    ensures
        s.push(x).contains(t) == (s.contains(t) || x == t),
{
    if s.push(x).contains(t) {
        let k = choose|k: int| 0 <= k < s.push(x).len() && s.push(x)[k] == t;
        if k < s.len() {
            assert(s[k] == t);
        }
    }
    if s.contains(t) {
        let k = choose|k: int| 0 <= k < s.len() && s[k] == t;
        assert(s.push(x)[k] == t);
    }
    if x == t {
        assert(s.push(x)[s.len() as int] == t);
    }
}

pub proof fn lemma_filter_empty<A>(s: Seq<A>, p: spec_fn(A) -> bool)
    requires
        s.len() == 0,
    ensures
        s.filter(p) == s,
{
    reveal(Seq::filter);
}

/// Total number of characters in a sequence of lines.
pub open spec fn total_len(ls: Seq<Seq<char>>) -> nat
    decreases ls.len(),
{
    if ls.len() == 0 {
        0
    } else {
        ls[0].len() + total_len(ls.drop_first())
    }
}

pub proof fn lemma_total_len_split(ls: Seq<Seq<char>>, i: int)
    requires
        0 <= i <= ls.len(),
    ensures
        total_len(ls.take(i)) + total_len(ls.skip(i)) == total_len(ls),
    decreases i,
{
    if i > 0 {
        lemma_total_len_split(ls.drop_first(), i - 1);
        assert(ls.take(i).drop_first() =~= ls.drop_first().take(i - 1));
        assert(ls.skip(i) =~= ls.drop_first().skip(i - 1));
    } else {
        assert(ls.skip(0) =~= ls);
    }
}

pub proof fn lemma_lines_total(s: Seq<char>)
    ensures
        total_len(lines_of(s)) <= s.len(),
        forall|i: int| 0 <= i < lines_of(s).len() ==> (#[trigger] lines_of(s)[i]).len() <= s.len(),
    decreases s.len(),
{
    if s.len() > 0 {
        match find(s, seq!['\n']) {
            None => {
                let ls = lines_of(s);
                assert(ls.drop_first().len() == 0);
                assert(total_len(ls.drop_first()) == 0);
            },
            Some(i) => {
                if 0 <= i < s.len() {
                    let rest = s.skip(i + 1);
                    lemma_lines_total(rest);
                    let ls = lines_of(s);
                    assert(strip_cr(s.take(i)).len() <= i);
                    assert(total_len(ls) == ls[0].len() + total_len(ls.drop_first()));
                    assert(ls.drop_first() =~= lines_of(rest));
                    assert forall|k: int| 0 <= k < ls.len() implies (#[trigger] ls[k]).len() <= s.len() by {
                        if k > 0 {
                            assert(ls[k] == lines_of(rest)[k - 1]);
                        }
                    }
                } else {
                    let ls = lines_of(s);
                    assert(ls.drop_first().len() == 0);
                    assert(total_len(ls.drop_first()) == 0);
                }
            },
        }
    }
}

// ---------------------------------------------------------------------------
// Executable operations
// ---------------------------------------------------------------------------

/// The characters of `s`.
pub fn chars_of(s: &str) -> (v: Vec<char>)
    ensures
        v@ == s@,
{
    let mut v: Vec<char> = Vec::new();
    let mut it = s.chars();
    let ghost all = s@;
    loop
        invariant
            all == s@,
            it.remaining() == all.skip(v@.len() as int),
            v@ == all.take(v@.len() as int),
            v@.len() <= all.len(),
        decreases all.len() - v@.len(),
    {
        match it.next() {
            Some(c) => {
                v.push(c);
                assert(v@ =~= all.take(v@.len() as int));
            },
            None => {
                assert(all.skip(v@.len() as int).len() == 0);
                assert(v@ =~= all);
                return v;
            },
        }
    }
}

/// A `String` holding the characters of `v`.
pub fn string_of(v: &Vec<char>) -> (s: String)
    ensures
        s@ == v@,
{
    let mut s = String::new();
    let mut i: usize = 0;
    while i < v.len()
        invariant
            i <= v.len(),
            s@ == v@.take(i as int),
        decreases v.len() - i,
    {
        push_char(&mut s, v[i]);
        assert(s@ =~= v@.take(i as int + 1));
        i = i + 1;
    }
    assert(v@.take(v.len() as int) =~= v@);
    s
}

/// The characters of `v` from `a` up to `b`.
pub fn slice_of(v: &Vec<char>, a: usize, b: usize) -> (r: Vec<char>)
    requires
        a <= b <= v.len(),
    ensures
        r@ == v@.subrange(a as int, b as int),
{
    let mut r: Vec<char> = Vec::new();
    let mut i = a;
    while i < b
        invariant
            a <= i <= b <= v.len(),
            r@ == v@.subrange(a as int, i as int),
        decreases b - i,
    {
        r.push(v[i]);
        assert(r@ =~= v@.subrange(a as int, i + 1));
        i = i + 1;
    }
    r
}

/// The number of UTF-8 bytes of `c`.
pub fn utf8_width_of(c: char) -> (w: usize)
    ensures
        w == utf8_width(c),
        1 <= w <= 4,
{
    proof {
        lemma_utf8_width(c);
    }
    let u = c as u32;
    if u < 0x80 {
        1
    } else if u < 0x800 {
        2
    } else if u < 0x10000 {
        3
    } else {
        4
    }
}

/// The byte offset of character `k` of `v`, as `str::len` measures it.
pub fn byte_pos_of(v: &Vec<char>, k: usize) -> (r: usize)
    requires
        k <= v.len(),
    ensures
        r as nat == byte_col(v@, k as int),
{
    let s = string_of(&slice_of(v, 0, k));
    assert(s@ =~= v@.take(k as int));
    s.as_str().len()
}

/// The character index of the last character boundary of `v` at or before
/// byte offset `b` (see [`char_floor`]).
pub fn char_floor_of(v: &Vec<char>, b: usize) -> (k: usize)
    ensures
        k == char_floor(v@, b as nat),
        k <= v.len(),
{
    let mut k: usize = 0;
    let mut acc: usize = 0;
    proof {
        lemma_byte_pos_zero(v@);
    }
    while k < v.len()
        invariant
            k <= v.len(),
            acc == byte_pos(v@, k as int),
            acc <= b,
        decreases v.len() - k,
    {
        let w = utf8_width_of(v[k]);
        proof {
            lemma_byte_pos_step(v@, k as int);
        }
        if w > b - acc {
            proof {
                lemma_char_floor_at(v@, b as nat, k as int);
            }
            return k;
        }
        acc = acc + w;
        k = k + 1;
    }
    proof {
        lemma_char_floor_at(v@, b as nat, k as int);
    }
    k
}

/// Appends the characters of `w` to `v`.
pub fn extend(v: &mut Vec<char>, w: &Vec<char>)
    ensures
        final(v)@ == old(v)@ + w@,
{
    let ghost v0 = v@;
    let mut i: usize = 0;
    while i < w.len()
        invariant
            i <= w.len(),
            v@ == v0 + w@.take(i as int),
        decreases w.len() - i,
    {
        v.push(w[i]);
        assert(v@ =~= v0 + w@.take(i + 1));
        i = i + 1;
    }
    assert(w@.take(w.len() as int) =~= w@);
}

/// Character-wise equality.
pub fn eq(a: &Vec<char>, b: &Vec<char>) -> (r: bool)
    ensures
        r == (a@ == b@),
{
    if a.len() != b.len() {
        return false;
    }
    let mut i: usize = 0;
    while i < a.len()
        invariant
            a.len() == b.len(),
            i <= a.len(),
            forall|j: int| 0 <= j < i ==> a@[j] == b@[j],
        decreases a.len() - i,
    {
        if a[i] != b[i] {
            return false;
        }
        i = i + 1;
    }
    assert(a@ =~= b@);
    true
}

/// Number of leading whitespace characters.
pub fn leading_ws(v: &Vec<char>) -> (n: usize)
    ensures
        n == lead(v@, ws_pred()),
        n <= v.len(),
{
    let mut i: usize = 0;
    while i < v.len() && char_is_whitespace(v[i])
        invariant
            i <= v.len(),
            forall|j: int| 0 <= j < i ==> #[trigger] ws_pred()(v@[j]),
        decreases v.len() - i,
    {
        i = i + 1;
    }
    proof {
        lemma_lead(v@, ws_pred(), i as int);
    }
    i
}

/// Number of trailing whitespace characters.
pub fn trailing_ws(v: &Vec<char>) -> (n: usize)
    ensures
        n == trail(v@, ws_pred()),
        n <= v.len(),
{
    let mut k: usize = 0;
    while k < v.len() && char_is_whitespace(v[v.len() - 1 - k])
        invariant
            k <= v.len(),
            forall|j: int| v.len() - k <= j < v.len() ==> #[trigger] ws_pred()(v@[j]),
        decreases v.len() - k,
    {
        k = k + 1;
    }
    proof {
        lemma_trail(v@, ws_pred(), k as int);
    }
    k
}

/// `str::trim_start`.
pub fn trim_start_of(v: &Vec<char>) -> (r: Vec<char>)
    ensures
        r@ == trim_start(v@),
{
    let n = leading_ws(v);
    slice_of(v, n, v.len())
}

/// `str::trim_end`.
pub fn trim_end_of(v: &Vec<char>) -> (r: Vec<char>)
    ensures
        r@ == trim_end(v@),
{
    let n = trailing_ws(v);
    slice_of(v, 0, v.len() - n)
}

/// `str::trim`.
pub fn trim_of(v: &Vec<char>) -> (r: Vec<char>)
    ensures
        r@ == trim(v@),
{
    let t = trim_start_of(v);
    trim_end_of(&t)
}

/// `str::starts_with`.
pub fn starts_with_of(s: &Vec<char>, p: &Vec<char>) -> (r: bool)
    ensures
        r == starts_with(s@, p@),
{
    if p.len() > s.len() {
        return false;
    }
    let mut i: usize = 0;
    while i < p.len()
        invariant
            p.len() <= s.len(),
            i <= p.len(),
            forall|j: int| 0 <= j < i ==> s@[j] == p@[j],
        decreases p.len() - i,
    {
        if s[i] != p[i] {
            assert(s@.take(p.len() as int)[i as int] != p@[i as int]);
            return false;
        }
        i = i + 1;
    }
    assert(s@.take(p.len() as int) =~= p@);
    true
}

/// `str::ends_with`.
pub fn ends_with_of(s: &Vec<char>, p: &Vec<char>) -> (r: bool)
    ensures
        r == ends_with(s@, p@),
{
    if p.len() > s.len() {
        return false;
    }
    let off = s.len() - p.len();
    let mut i: usize = 0;
    while i < p.len()
        invariant
            p.len() <= s.len(),
            off == s.len() - p.len(),
            i <= p.len(),
            forall|j: int| 0 <= j < i ==> s@[off + j] == p@[j],
        decreases p.len() - i,
    {
        if s[off + i] != p[i] {
            assert(s@.skip(off as int)[i as int] != p@[i as int]);
            return false;
        }
        i = i + 1;
    }
    assert(s@.skip(off as int) =~= p@);
    true
}

/// Whether `p` occurs in `s` at position `i`.
pub fn matches_at(s: &Vec<char>, p: &Vec<char>, i: usize) -> (r: bool)
    ensures
        r == match_at(s@, p@, i as int),
{
    if i > s.len() || p.len() > s.len() - i {
        return false;
    }
    let mut j: usize = 0;
    while j < p.len()
        invariant
            i + p.len() <= s.len(),
            j <= p.len(),
            forall|k: int| 0 <= k < j ==> s@[i + k] == p@[k],
        decreases p.len() - j,
    {
        if s[i + j] != p[j] {
            assert(s@.subrange(i as int, i + p.len())[j as int] != p@[j as int]);
            return false;
        }
        j = j + 1;
    }
    assert(s@.subrange(i as int, i + p.len()) =~= p@);
    true
}

/// `str::find` from position `k` on.
pub fn find_from_of(s: &Vec<char>, p: &Vec<char>, k: usize) -> (r: Option<usize>)
    ensures
        r matches Some(i) ==> find_from(s@, p@, k as int) == Some(i as int),
        r is None ==> find_from(s@, p@, k as int) is None,
{
    if k > s.len() || p.len() > s.len() - k {
        return None;
    }
    let last = s.len() - p.len();
    let mut i = k;
    loop
        invariant
            k <= i <= last,
            last + p.len() == s.len(),
            forall|j: int| k <= j < i ==> !#[trigger] match_at(s@, p@, j),
        decreases last - i,
    {
        if matches_at(s, p, i) {
            proof {
                lemma_find_from_skip(s@, p@, k as int, i as int);
            }
            return Some(i);
        }
        if i == last {
            proof {
                lemma_find_from_skip(s@, p@, k as int, i + 1);
            }
            return None;
        }
        i = i + 1;
    }
}

/// `str::find`.
pub fn find_of(s: &Vec<char>, p: &Vec<char>) -> (r: Option<usize>)
    ensures
        r matches Some(i) ==> find(s@, p@) == Some(i as int),
        r is None ==> find(s@, p@) is None,
{
    find_from_of(s, p, 0)
}

/// `str::contains`.
pub fn contains_of(s: &Vec<char>, p: &Vec<char>) -> (r: bool)
    ensures
        r == contains(s@, p@),
{
    find_of(s, p).is_some()
}

/// `str::rfind`.
pub fn rfind_of(s: &Vec<char>, p: &Vec<char>) -> (r: Option<usize>)
    ensures
        r matches Some(i) ==> rfind(s@, p@) == Some(i as int),
        r is None ==> rfind(s@, p@) is None,
{
    if p.len() > s.len() {
        proof {
            assert(rfind_to(s@, p@, s@.len() - p@.len()) is None) by {
                lemma_rfind_to_facts(s@, p@, s@.len() - p@.len());
                if s@.len() - p@.len() >= 0 {
                    assert(!match_at(s@, p@, s@.len() - p@.len()));
                }
            }
        }
        return None;
    }
    let mut i = s.len() - p.len();
    loop
        invariant
            i + p.len() <= s.len(),
            rfind(s@, p@) == rfind_to(s@, p@, i as int),
        decreases i,
    {
        if matches_at(s, p, i) {
            return Some(i);
        }
        if i == 0 {
            assert(rfind_to(s@, p@, -1) is None);
            return None;
        }
        i = i - 1;
    }
}

/// The pieces of `s` separated by `c`.
pub fn split_char_of(s: &Vec<char>, c: char) -> (r: Vec<Vec<char>>)
    ensures
        views(r@) == split_char(s@, c),
{
    let mut r: Vec<Vec<char>> = Vec::new();
    let mut start: usize = 0;
    let mut needle: Vec<char> = Vec::new();
    needle.push(c);
    assert(needle@ =~= seq![c]);
    assert(s@.skip(0) =~= s@);
    assert(views(r@) =~= Seq::<Seq<char>>::empty());
    loop
        invariant
            start <= s.len(),
            needle@ == seq![c],
            views(r@) + split_char(s@.skip(start as int), c) == split_char(s@, c),
        decreases s.len() - start,
    {
        let rest = slice_of(s, start, s.len());
        assert(rest@ =~= s@.skip(start as int));
        match find_of(&rest, &needle) {
            None => {
                let ghost old_r = views(r@);
                r.push(rest);
                assert(views(r@) =~= old_r + split_char(s@.skip(start as int), c));
                return r;
            },
            Some(i) => {
                proof {
                    lemma_find_from_facts(rest@, needle@, 0);
                }
                let piece = slice_of(&rest, 0, i);
                let ghost old_r = views(r@);
                r.push(piece);
                assert(rest@.skip(i + 1) =~= s@.skip(start + i + 1));
                assert(views(r@) =~= old_r + seq![rest@.take(i as int)]);
                assert(split_char(rest@, c) == seq![rest@.take(i as int)] + split_char(rest@.skip(i + 1), c));
                assert(views(r@) + split_char(s@.skip(start + i + 1), c) =~= old_r + split_char(rest@, c));
                start = start + i + 1;
            },
        }
    }
}

/// The lines of `s`, as `str::lines` gives them.
pub fn lines_of_vec(s: &Vec<char>) -> (r: Vec<Vec<char>>)
    ensures
        views(r@) == lines_of(s@),
{
    let mut r: Vec<Vec<char>> = Vec::new();
    let mut start: usize = 0;
    let mut needle: Vec<char> = Vec::new();
    needle.push('\n');
    assert(needle@ =~= seq!['\n']);
    assert(s@.skip(0) =~= s@);
    assert(views(r@) =~= Seq::<Seq<char>>::empty());
    loop
        invariant
            start <= s.len(),
            needle@ == seq!['\n'],
            views(r@) + lines_of(s@.skip(start as int)) == lines_of(s@),
        decreases s.len() - start,
    {
        let rest = slice_of(s, start, s.len());
        assert(rest@ =~= s@.skip(start as int));
        if rest.len() == 0 {
            assert(views(r@) =~= views(r@) + lines_of(rest@));
            return r;
        }
        match find_of(&rest, &needle) {
            None => {
                let ghost old_r = views(r@);
                r.push(rest);
                assert(views(r@) =~= old_r + lines_of(s@.skip(start as int)));
                return r;
            },
            Some(i) => {
                proof {
                    lemma_find_from_facts(rest@, needle@, 0);
                }
                let mut end = i;
                if end > 0 && rest[end - 1] == '\r' {
                    end = end - 1;
                }
                let piece = slice_of(&rest, 0, end);
                assert(piece@ =~= strip_cr(rest@.take(i as int)));
                let ghost old_r = views(r@);
                r.push(piece);
                assert(rest@.skip(i + 1) =~= s@.skip(start + i + 1));
                assert(lines_of(rest@) == seq![strip_cr(rest@.take(i as int))] + lines_of(rest@.skip(i + 1)));
                assert(views(r@) + lines_of(s@.skip(start + i + 1)) =~= old_r + lines_of(rest@));
                start = start + i + 1;
            },
        }
    }
}

/// The whitespace-separated words of `s`.
pub fn words_of(s: &Vec<char>) -> (r: Vec<Vec<char>>)
    ensures
        views(r@) == words(s@),
{
    let mut r: Vec<Vec<char>> = Vec::new();
    let mut i: usize = 0;
    assert(s@.skip(0) =~= s@);
    assert(views(r@) =~= Seq::<Seq<char>>::empty());
    while i < s.len()
        invariant
            i <= s.len(),
            views(r@) + words(s@.skip(i as int)) == words(s@),
        decreases s.len() - i,
    {
        let ghost t = s@.skip(i as int);
        assert(t.drop_first() =~= s@.skip(i + 1));
        if char_is_whitespace(s[i]) {
            i = i + 1;
        } else {
            let mut j = i + 1;
            while j < s.len() && !char_is_whitespace(s[j])
                invariant
                    i < j <= s.len(),
                    !is_ws(s@[i as int]),
                    forall|k: int| i <= k < j ==> #[trigger] non_ws_pred()(s@[k]),
                decreases s.len() - j,
            {
                j = j + 1;
            }
            proof {
                assert forall|k: int| 0 <= k < j - i implies #[trigger] non_ws_pred()(t[k]) by {
                    assert(t[k] == s@[i + k]);
                }
                if j < s.len() {
                    assert(t[j - i] == s@[j as int]);
                }
                lemma_lead(t, non_ws_pred(), j - i);
            }
            let w = slice_of(s, i, j);
            let ghost old_r = views(r@);
            r.push(w);
            assert(t.take(j - i) =~= w@);
            assert(t.skip(j - i) =~= s@.skip(j as int));
            assert(views(r@) =~= old_r + seq![w@]);
            assert(views(r@) + words(s@.skip(j as int)) =~= old_r + words(t));
            i = j;
        }
    }
    assert(words(s@.skip(i as int)) =~= Seq::<Seq<char>>::empty());
    assert(views(r@) =~= views(r@) + words(s@.skip(i as int)));
    r
}

} // verus!
