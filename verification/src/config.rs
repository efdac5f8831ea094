//! Target API and formatter selection, shader stage detection, file URIs and
//! `#version` headers.
use vstd::prelude::*;
use crate::lexical::{in_list, word_in_list};
use crate::symbols::{lit, opt_str_view, opt_view};
use crate::text::{
    ascii_lower, char_is_whitespace, chars_of, contains, contains_of, ends_with, ends_with_of, eq,
    eq_ignore_ascii_case, extend, is_ws, lines_of, lines_of_vec, slice_of, starts_with,
    starts_with_of, str_to_lowercase, string_of, lowercase, trim, trim_of, views,
};

verus! {

/// The graphics API a shader is validated for.
#[derive(Debug, Clone, Copy, PartialEq, Eq, Structural)]
pub enum TargetApi {
    OpenGl,
    Vulkan,
}

/// The formatting engine.
#[derive(Debug, Clone, Copy, PartialEq, Eq, Structural)]
pub enum FormatterEngine {
    Builtin,
    ClangFormat,
}

pub fn ascii_lower_of(c: char) -> (r: char)
    ensures
        r == ascii_lower(c),
{
    if 'A' <= c && c <= 'Z' {
        let u = c as u8;
        let l = u + 32;
        assert(c as u32 == u as u32);
        (l as char)
    } else {
        c
    }
}

/// `str::eq_ignore_ascii_case`.
pub fn eq_ignore_ascii_case_of(a: &Vec<char>, b: &Vec<char>) -> (r: bool)
    ensures
        r == eq_ignore_ascii_case(a@, b@),
{
    if a.len() != b.len() {
        return false;
    }
    let mut i: usize = 0;
    while i < a.len()
        invariant
            a.len() == b.len(),
            i <= a.len(),
            forall|j: int| 0 <= j < i ==> ascii_lower(#[trigger] a@[j]) == ascii_lower(b@[j]),
        decreases a.len() - i,
    {
        if ascii_lower_of(a[i]) != ascii_lower_of(b[i]) {
            return false;
        }
        i = i + 1;
    }
    true
}

impl TargetApi {
    /// `vulkan` or `vk` (in any ASCII case) selects Vulkan; anything else OpenGL.
    pub fn parse_target(s: &str) -> (r: TargetApi)
        ensures
            r == (if eq_ignore_ascii_case(s@, "vulkan"@) || eq_ignore_ascii_case(s@, "vk"@) {
                TargetApi::Vulkan
            } else {
                TargetApi::OpenGl
            }),
    {
        let v = chars_of(s);
        if eq_ignore_ascii_case_of(&v, &lit("vulkan")) || eq_ignore_ascii_case_of(&v, &lit("vk")) {
            TargetApi::Vulkan
        } else {
            TargetApi::OpenGl
        }
    }

    /// The glslangValidator flag for the target: `-C` or `-V`.
    pub fn flag(&self) -> (r: &'static str)
        ensures
            r == (match self {
                TargetApi::OpenGl => "-C",
                TargetApi::Vulkan => "-V",
            }),
    {
        match self {
            TargetApi::OpenGl => "-C",
            TargetApi::Vulkan => "-V",
        }
    }

    /// `OpenGL` or `Vulkan`.
    pub fn display_name(&self) -> (r: &'static str)
        ensures
            r == (match self {
                TargetApi::OpenGl => "OpenGL",
                TargetApi::Vulkan => "Vulkan",
            }),
    {
        match self {
            TargetApi::OpenGl => "OpenGL",
            TargetApi::Vulkan => "Vulkan",
        }
    }

    /// The label of diagnostics: for OpenGL it names the first non-empty
    /// `#version` given in the text.
    pub fn display_label(&self, text: &str) -> (r: String)
        ensures
            r@ == (match self {
                TargetApi::Vulkan => "glslangValidator (Vulkan)"@,
                TargetApi::OpenGl => match first_version(lines_of(text@), 0) {
                    Some(ver) => "glslangValidator (OpenGL "@ + ver + ")"@,
                    None => "glslangValidator (OpenGL)"@,
                },
            }),
    {
        match self {
            TargetApi::Vulkan => string_of(&lit("glslangValidator (Vulkan)")),
            TargetApi::OpenGl => {
                let s = chars_of(text);
                let ls = lines_of_vec(&s);
                match first_version_of(&ls) {
                    Some(ver) => {
                        let mut r = lit("glslangValidator (OpenGL ");
                        extend(&mut r, &ver);
                        extend(&mut r, &lit(")"));
                        string_of(&r)
                    },
                    None => string_of(&lit("glslangValidator (OpenGL)")),
                }
            },
        }
    }
}

/// The text after `#version` on the first line (from `i` on) that starts with
/// `#version` and names something.
pub open spec fn first_version(ls: Seq<Seq<char>>, i: int) -> Option<Seq<char>>
    decreases ls.len() - i,
{
    if i < 0 || i >= ls.len() {
        None
    } else {
        let t = trim(ls[i]);
        if starts_with(t, "#version"@) && trim(t.skip(8)).len() > 0 {
            Some(trim(t.skip(8)))
        } else {
            first_version(ls, i + 1)
        }
    }
}

fn first_version_of(ls: &Vec<Vec<char>>) -> (r: Option<Vec<char>>)
    ensures
        match first_version(views(ls@), 0) {
            Some(v) => r matches Some(w) && w@ == v,
            None => r is None,
        },
{
    let kw = lit("#version");
    proof {
        reveal_strlit("#version");
    }
    let mut i: usize = 0;
    while i < ls.len()
        invariant
            i <= ls.len(),
            kw@ == "#version"@,
            kw@.len() == 8,
            first_version(views(ls@), 0) == first_version(views(ls@), i as int),
        decreases ls.len() - i,
    {
        let t = trim_of(&ls[i]);
        assert(views(ls@)[i as int] == ls@[i as int]@);
        if starts_with_of(&t, &kw) {
            let rest = slice_of(&t, 8, t.len());
            assert(rest@ =~= t@.skip(8));
            let ver = trim_of(&rest);
            if ver.len() > 0 {
                return Some(ver);
            }
        }
        i = i + 1;
    }
    None
}


impl FormatterEngine {
    /// `clang-format` or `clang` (in any ASCII case) selects clang-format;
    /// anything else the built-in formatter.
    pub fn parse_engine(s: &str) -> (r: FormatterEngine)
        ensures
            r == (if eq_ignore_ascii_case(s@, "clang-format"@) || eq_ignore_ascii_case(s@, "clang"@) {
                FormatterEngine::ClangFormat
            } else {
                FormatterEngine::Builtin
            }),
    {
        let v = chars_of(s);
        if eq_ignore_ascii_case_of(&v, &lit("clang-format")) || eq_ignore_ascii_case_of(&v, &lit("clang")) {
            FormatterEngine::ClangFormat
        } else {
            FormatterEngine::Builtin
        }
    }

    /// The engine's name as shown to the user.
    pub fn display_name(&self) -> (r: &'static str)
        ensures
            r == (match self {
                FormatterEngine::Builtin => "Builtin (Pure Rust)",
                FormatterEngine::ClangFormat => "clang-format",
            }),
    {
        match self {
            FormatterEngine::Builtin => "Builtin (Pure Rust)",
            FormatterEngine::ClangFormat => "clang-format",
        }
    }
}

/// Markers that select Vulkan in a leading comment or pragma (lower case).
pub const VULKAN_MARKERS: [&'static str; 4] = [
    "@target: vulkan",
    "@target:vulkan",
    "@api: vulkan",
    "target(vulkan)",
];

/// Markers that select OpenGL in a leading comment or pragma (lower case).
pub const OPENGL_MARKERS: [&'static str; 4] = [
    "@target: opengl",
    "@target:opengl",
    "@api: opengl",
    "target(opengl)",
];

/// Markers that select clang-format in a leading comment or pragma (lower case).
pub const CLANG_MARKERS: [&'static str; 4] = [
    "@formatter: clang-format",
    "@formatter:clang-format",
    "@formatter: clang",
    "formatter(clang)",
];

/// Markers that select the built-in formatter in a leading comment or pragma (lower case).
pub const BUILTIN_MARKERS: [&'static str; 3] = [
    "@formatter: builtin",
    "@formatter:builtin",
    "formatter(builtin)",
];

/// Some string of `list` occurs in `s`.
pub open spec fn contains_any<const N: usize>(s: Seq<char>, list: [&'static str; N]) -> bool {
    exists|i: int| 0 <= i < N && contains(s, (#[trigger] list@[i])@)
}

/// Whether some string of `list` occurs in `s`.
pub fn contains_any_of<const N: usize>(s: &Vec<char>, list: &[&'static str; N]) -> (r: bool)
    ensures
        r == contains_any(s@, *list),
{
    let mut i: usize = 0;
    while i < N
        invariant
            i <= N,
            forall|j: int| 0 <= j < i ==> !contains(s@, (#[trigger] list@[j])@),
        decreases N - i,
    {
        let pat = chars_of(list[i]);
        if contains_of(s, &pat) {
            return true;
        }
        i = i + 1;
    }
    false
}

/// A (trimmed) line that may carry a directive: a comment or a `#pragma`.
pub open spec fn directive_line(t: Seq<char>) -> bool {
    starts_with(t, "//"@) || starts_with(t, "/*"@) || starts_with(t, "#pragma"@)
}

fn directive_line_of(t: &Vec<char>) -> (r: bool)
    ensures
        r == directive_line(t@),
{
    starts_with_of(t, &lit("//")) || starts_with_of(t, &lit("/*")) || starts_with_of(t, &lit("#pragma"))
}

/// The lower-cased characters of `t`.
fn lowercase_of(t: &Vec<char>) -> (r: Vec<char>)
    ensures
        r@ == lowercase(t@),
{
    let s = string_of(t);
    let l = str_to_lowercase(s.as_str());
    chars_of(l.as_str())
}

/// The target named by the first of the first ten lines (from `i` on) that
/// is a directive line holding a target marker; `default` if none does.
pub open spec fn target_from(ls: Seq<Seq<char>>, i: int, default: TargetApi) -> TargetApi
    decreases 10 - i,
{
    if i < 0 || i >= 10 || i >= ls.len() {
        default
    } else if directive_line(trim(ls[i])) && contains_any(lowercase(trim(ls[i])), VULKAN_MARKERS) {
        TargetApi::Vulkan
    } else if directive_line(trim(ls[i])) && contains_any(lowercase(trim(ls[i])), OPENGL_MARKERS) {
        TargetApi::OpenGl
    } else {
        target_from(ls, i + 1, default)
    }
}

/// The target API a shader asks for in a comment or pragma among its first
/// ten lines, else `default_target`.
pub fn detect_target_api(text: &str, default_target: TargetApi) -> (r: TargetApi)
    ensures
        r == target_from(lines_of(text@), 0, default_target),
{
    let s = chars_of(text);
    let ls = lines_of_vec(&s);
    let mut i: usize = 0;
    while i < ls.len() && i < 10
        invariant
            i <= ls.len(),
            views(ls@) == lines_of(text@),
            target_from(lines_of(text@), 0, default_target) == target_from(lines_of(text@), i as int, default_target),
        decreases ls.len() - i,
    {
        let t = trim_of(&ls[i]);
        assert(views(ls@)[i as int] == ls@[i as int]@);
        if directive_line_of(&t) {
            let lower = lowercase_of(&t);
            if contains_any_of(&lower, &VULKAN_MARKERS) {
                return TargetApi::Vulkan;
            }
            if contains_any_of(&lower, &OPENGL_MARKERS) {
                return TargetApi::OpenGl;
            }
        }
        i = i + 1;
    }
    default_target
}

/// The engine named by the first of the first ten lines (from `i` on) that
/// is a directive line holding an engine marker; `default` if none does.
pub open spec fn engine_from(ls: Seq<Seq<char>>, i: int, default: FormatterEngine) -> FormatterEngine
    decreases 10 - i,
{
    if i < 0 || i >= 10 || i >= ls.len() {
        default
    } else if directive_line(trim(ls[i])) && contains_any(lowercase(trim(ls[i])), CLANG_MARKERS) {
        FormatterEngine::ClangFormat
    } else if directive_line(trim(ls[i])) && contains_any(lowercase(trim(ls[i])), BUILTIN_MARKERS) {
        FormatterEngine::Builtin
    } else {
        engine_from(ls, i + 1, default)
    }
}

/// The formatter a shader asks for in a comment or pragma among its first
/// ten lines, else `default_engine`.
pub fn detect_formatter_engine(text: &str, default_engine: FormatterEngine) -> (r: FormatterEngine)
    ensures
        r == engine_from(lines_of(text@), 0, default_engine),
{
    let s = chars_of(text);
    let ls = lines_of_vec(&s);
    let mut i: usize = 0;
    while i < ls.len() && i < 10
        invariant
            i <= ls.len(),
            views(ls@) == lines_of(text@),
            engine_from(lines_of(text@), 0, default_engine) == engine_from(lines_of(text@), i as int, default_engine),
        decreases ls.len() - i,
    {
        let t = trim_of(&ls[i]);
        assert(views(ls@)[i as int] == ls@[i as int]@);
        if directive_line_of(&t) {
            let lower = lowercase_of(&t);
            if contains_any_of(&lower, &CLANG_MARKERS) {
                return FormatterEngine::ClangFormat;
            }
            if contains_any_of(&lower, &BUILTIN_MARKERS) {
                return FormatterEngine::Builtin;
            }
        }
        i = i + 1;
    }
    default_engine
}

/// Stage names recognised as a file extension or as an inner `.name.` part.
pub const SHADER_STAGES: [&'static str; 8] = ["vert", "frag", "geom", "tesc", "tese", "comp", "mesh", "task"];

/// Ray-tracing stage names, recognised as a file extension only.
pub const RAY_STAGES: [&'static str; 6] = ["rgen", "rint", "rahit", "rchit", "rmiss", "rcall"];

/// Whether the lower-cased URI names stage `i` (the eight shader stages
/// first, then the six ray-tracing stages).
pub open spec fn names_stage(lower: Seq<char>, i: int) -> bool {
    if 0 <= i < 8 {
        ends_with(lower, seq!['.'] + SHADER_STAGES@[i]@)
            || contains(lower, seq!['.'] + SHADER_STAGES@[i]@ + seq!['.'])
    } else if 8 <= i < 14 {
        ends_with(lower, seq!['.'] + RAY_STAGES@[i - 8]@)
    } else {
        false
    }
}

/// The first stage (from `i` on) that the lower-cased URI names.
pub open spec fn stage_index(lower: Seq<char>, i: int) -> Option<int>
    decreases 14 - i,
{
    if i < 0 || i >= 14 {
        None
    } else if names_stage(lower, i) {
        Some(i)
    } else {
        stage_index(lower, i + 1)
    }
}

/// The name of stage `i`.
pub open spec fn stage_name(i: int) -> Seq<char> {
    if i < 8 {
        SHADER_STAGES@[i]@
    } else {
        RAY_STAGES@[i - 8]@
    }
}

/// The stage of a shader: from the lower-cased URI, else from the text.
pub open spec fn stage_of(lower: Seq<char>, text: Seq<char>) -> Seq<char> {
    match stage_index(lower, 0) {
        Some(i) => stage_name(i),
        None => if contains(text, "gl_Position"@) {
            "vert"@
        } else if contains(text, "gl_FragCoord"@) || contains(text, "gl_FragColor"@) {
            "frag"@
        } else {
            "vert"@
        },
    }
}

/// The shader stage passed to the compiler: named by the file's extension
/// (or an inner `.stage.` part), else guessed from the text.
pub fn get_stage_from_uri(uri: &str, text: &str) -> (r: &'static str)
    ensures
        r@ == stage_of(lowercase(uri@), text@),
{
    let lower = chars_of(str_to_lowercase(uri).as_str());
    let mut i: usize = 0;
    while i < 14
        invariant
            i <= 14,
            lower@ == lowercase(uri@),
            stage_index(lower@, 0) == stage_index(lower@, i as int),
        decreases 14 - i,
    {
        if i < 8 {
            let st = chars_of(SHADER_STAGES[i]);
            let mut d = lit(".");
            extend(&mut d, &st);
            let mut d2 = lit(".");
            extend(&mut d2, &st);
            extend(&mut d2, &lit("."));
            proof {
                reveal_strlit(".");
                assert(d@ =~= seq!['.'] + SHADER_STAGES@[i as int]@);
                assert(d2@ =~= seq!['.'] + SHADER_STAGES@[i as int]@ + seq!['.']);
            }
            if ends_with_of(&lower, &d) || contains_of(&lower, &d2) {
                return SHADER_STAGES[i];
            }
        } else {
            let st = chars_of(RAY_STAGES[i - 8]);
            let mut d = lit(".");
            extend(&mut d, &st);
            proof {
                reveal_strlit(".");
                assert(d@ =~= seq!['.'] + RAY_STAGES@[i - 8]@);
            }
            if ends_with_of(&lower, &d) {
                return RAY_STAGES[i - 8];
            }
        }
        i = i + 1;
    }
    let t = chars_of(text);
    if contains_of(&t, &lit("gl_Position")) {
        "vert"
    } else if contains_of(&t, &lit("gl_FragCoord")) || contains_of(&t, &lit("gl_FragColor")) {
        "frag"
    } else {
        "vert"
    }
}


/// The value of a hexadecimal digit.
pub open spec fn hex_value(c: char) -> Option<nat> {
    if '0' <= c && c <= '9' {
        Some((c as nat - '0' as nat) as nat)
    } else if 'a' <= c && c <= 'f' {
        Some((c as nat - 'a' as nat + 10) as nat)
    } else if 'A' <= c && c <= 'F' {
        Some((c as nat - 'A' as nat + 10) as nat)
    } else {
        None
    }
}

/// Two characters read as a byte in base 16, as `u8::from_str_radix` reads
/// them: two digits, or `+` and one digit.
pub open spec fn hex_byte(a: char, b: char) -> Option<nat> {
    match (hex_value(a), hex_value(b)) {
        (Some(x), Some(y)) => Some(16 * x + y),
        (None, Some(y)) => if a == '+' {
            Some(y)
        } else {
            None
        },
        _ => None,
    }
}

/// `s` with each `%` and two hexadecimal digits after it replaced by the
/// character with that code; a `%` that is not followed so stays, with the
/// (at most two) characters after it.
pub open spec fn percent_decode(s: Seq<char>) -> Seq<char>
    decreases s.len(),
{
    if s.len() == 0 {
        seq![]
    } else if s[0] != '%' {
        seq![s[0]] + percent_decode(s.skip(1))
    } else if s.len() >= 3 && hex_byte(s[1], s[2]) is Some {
        seq![(hex_byte(s[1], s[2]).unwrap() as u8) as char] + percent_decode(s.skip(3))
    } else if s.len() >= 3 {
        s.take(3) + percent_decode(s.skip(3))
    } else {
        s
    }
}

fn hex_value_of(c: char) -> (r: Option<u8>)
    ensures
        match hex_value(c) {
            Some(v) => r == Some(v as u8) && v < 16,
            None => r is None,
        },
{
    if '0' <= c && c <= '9' {
        Some(((c as u32) - ('0' as u32)) as u8)
    } else if 'a' <= c && c <= 'f' {
        Some(((c as u32) - ('a' as u32) + 10) as u8)
    } else if 'A' <= c && c <= 'F' {
        Some(((c as u32) - ('A' as u32) + 10) as u8)
    } else {
        None
    }
}

fn hex_byte_of(a: char, b: char) -> (r: Option<u8>)
    ensures
        match hex_byte(a, b) {
            Some(v) => r == Some(v as u8) && v < 256,
            None => r is None,
        },
{
    match (hex_value_of(a), hex_value_of(b)) {
        (Some(x), Some(y)) => Some(16 * x + y),
        (None, Some(y)) => if a == '+' {
            Some(y)
        } else {
            None
        },
        _ => None,
    }
}

/// Decodes `%XX` escapes, as in file URIs.
pub fn percent_decode_str(input: &str) -> (r: String)
    ensures
        r@ == percent_decode(input@),
{
    let s = chars_of(input);
    let mut out: Vec<char> = Vec::new();
    let mut i: usize = 0;
    assert(s@.skip(0) =~= s@);
    while i < s.len()
        invariant
            i <= s.len(),
            s@ == input@,
            out@ + percent_decode(s@.skip(i as int)) == percent_decode(s@),
        decreases s.len() - i,
    {
        let ghost t = s@.skip(i as int);
        let ghost o = out@;
        if s[i] != '%' {
            out.push(s[i]);
            assert(t.skip(1) =~= s@.skip(i + 1));
            assert(out@ + percent_decode(s@.skip(i + 1)) =~= o + percent_decode(t));
            i = i + 1;
        } else if s.len() - i > 2 {
            assert(t[1] == s@[i + 1] && t[2] == s@[i + 2]);
            assert(t.skip(3) =~= s@.skip(i + 3));
            match hex_byte_of(s[i + 1], s[i + 2]) {
                Some(b) => {
                    out.push(b as char);
                    assert(out@ + percent_decode(s@.skip(i + 3)) =~= o + percent_decode(t));
                },
                None => {
                    out.push('%');
                    out.push(s[i + 1]);
                    out.push(s[i + 2]);
                    assert(t.take(3) =~= seq!['%', s@[i + 1], s@[i + 2]]);
                    assert(out@ + percent_decode(s@.skip(i + 3)) =~= o + percent_decode(t));
                },
            }
            i = i + 3;
        } else {
            let tail = slice_of(&s, i, s.len());
            extend(&mut out, &tail);
            assert(tail@ =~= t);
            assert(s@.skip(s.len() as int) =~= Seq::<char>::empty());
            assert(out@ + percent_decode(s@.skip(s.len() as int)) =~= o + percent_decode(t));
            i = s.len();
        }
    }
    string_of(&out)
}

/// The path of a `file://` URI, percent-decoded. On Windows a leading `/`
/// before a drive letter (`/C:/...`) is dropped.
pub open spec fn uri_path(uri: Seq<char>, windows: bool) -> Option<Seq<char>> {
    if starts_with(uri, "file://"@) {
        let rest = uri.skip(7);
        if windows && rest.len() > 2 && rest[0] == '/' && rest[2] == ':' {
            Some(percent_decode(rest.skip(1)))
        } else {
            Some(percent_decode(rest))
        }
    } else {
        None
    }
}

/// The file system path that a `file://` URI names, or `None` for any other
/// URI. `windows` says whether paths are Windows paths.
pub fn uri_to_path(uri: &str, windows: bool) -> (r: Option<String>)
    ensures
        opt_view(r) == uri_path(uri@, windows),
{
    let u = chars_of(uri);
    let pre = lit("file://");
    proof {
        reveal_strlit("file://");
    }
    if !starts_with_of(&u, &pre) {
        return None;
    }
    let rest = slice_of(&u, 7, u.len());
    let p = if windows && rest.len() > 2 && rest[0] == '/' && rest[2] == ':' {
        slice_of(&rest, 1, rest.len())
    } else {
        slice_of(&rest, 0, rest.len())
    };
    assert(rest@.skip(0) =~= rest@);
    let s = string_of(&p);
    Some(percent_decode_str(s.as_str()))
}

/// `s` with every `\` replaced by `/`.
pub open spec fn forward_slashes(s: Seq<char>) -> Seq<char> {
    s.map_values(|c: char| if c == '\\' { '/' } else { c })
}

/// The `file://` URI of a path.
pub open spec fn path_uri(path: Seq<char>) -> Seq<char> {
    let s = forward_slashes(path);
    if starts_with(s, "/"@) {
        "file://"@ + s
    } else {
        "file:///"@ + s
    }
}

/// The `file://` URI of a path (given as text): back slashes become forward
/// slashes, and a relative or drive-letter path gets a leading `/`.
pub fn path_to_uri(path: &str) -> (r: String)
    ensures
        r@ == path_uri(path@),
{
    let p = chars_of(path);
    let mut s: Vec<char> = Vec::new();
    let mut i: usize = 0;
    while i < p.len()
        invariant
            i <= p.len(),
            s@ == forward_slashes(p@.take(i as int)),
        decreases p.len() - i,
    {
        let c = if p[i] == '\\' { '/' } else { p[i] };
        s.push(c);
        assert(forward_slashes(p@.take(i + 1)) =~= forward_slashes(p@.take(i as int)).push(c));
        i = i + 1;
    }
    assert(p@.take(p.len() as int) =~= p@);
    let mut r = if starts_with_of(&s, &lit("/")) {
        lit("file://")
    } else {
        lit("file:///")
    };
    extend(&mut r, &s);
    string_of(&r)
}


/// The `#version` line (the last one) and the `#extension` lines of the
/// leading block of a text: lines from `i` on, skipping comments and blank
/// lines, up to the first line that is no directive.
pub open spec fn header_scan(
    ls: Seq<Seq<char>>,
    i: int,
    ver: Option<Seq<char>>,
    exts: Seq<Seq<char>>,
) -> (Option<Seq<char>>, Seq<Seq<char>>)
    decreases ls.len() - i,
{
    if i < 0 || i >= ls.len() {
        (ver, exts)
    } else {
        let t = trim(ls[i]);
        if starts_with(t, "//"@) || starts_with(t, "/*"@) || t.len() == 0 {
            header_scan(ls, i + 1, ver, exts)
        } else if starts_with(t, "#version"@) {
            header_scan(ls, i + 1, Some(t), exts)
        } else if starts_with(t, "#extension"@) {
            header_scan(ls, i + 1, ver, exts.push(t))
        } else if !starts_with(t, "#"@) {
            (ver, exts)
        } else {
            header_scan(ls, i + 1, ver, exts)
        }
    }
}

/// Each line followed by a newline.
pub open spec fn terminated(ls: Seq<Seq<char>>) -> Seq<char>
    decreases ls.len(),
{
    if ls.len() == 0 {
        seq![]
    } else {
        terminated(ls.drop_last()) + ls.last() + "\n"@
    }
}

/// The header that repeats a text's `#version` and `#extension` lines,
/// followed by `#line 1`; `None` if the text has no `#version`.
pub open spec fn version_header(text: Seq<char>) -> Option<Seq<char>> {
    let (ver, exts) = header_scan(lines_of(text), 0, None, seq![]);
    match ver {
        Some(v) => Some(v + "\n"@ + terminated(exts) + "#line 1\n"@),
        None => None,
    }
}

/// Extracts the `#version ...` line and any leading `#extension ...`
/// directives from GLSL text, as a header ending in `#line 1`.
pub fn extract_version_and_extensions(text: &str) -> (r: Option<String>)
    ensures
        opt_view(r) == version_header(text@),
{
    let s = chars_of(text);
    let ls = lines_of_vec(&s);
    let mut ver: Option<Vec<char>> = None;
    let mut exts: Vec<Vec<char>> = Vec::new();
    let mut i: usize = 0;
    let ghost full = lines_of(text@);
    proof {
        reveal_strlit("//");
        reveal_strlit("/*");
        reveal_strlit("#version");
        reveal_strlit("#extension");
        reveal_strlit("#");
        assert(views(exts@) =~= Seq::<Seq<char>>::empty());
    }
    while i < ls.len()
        invariant_except_break
            i <= ls.len(),
            views(ls@) == full,
            header_scan(full, 0, None, seq![]) == header_scan(
                full,
                i as int,
                match ver {
                    Some(v) => Some(v@),
                    None => None,
                },
                views(exts@),
            ),
        ensures
            header_scan(full, 0, None, seq![]) == (
                match ver {
                    Some(v) => Some(v@),
                    None => None::<Seq<char>>,
                },
                views(exts@),
            ),
        decreases ls.len() - i,
    {
        let t = trim_of(&ls[i]);
        assert(views(ls@)[i as int] == ls@[i as int]@);
        if starts_with_of(&t, &lit("//")) || starts_with_of(&t, &lit("/*")) || t.len() == 0 {
        } else if starts_with_of(&t, &lit("#version")) {
            ver = Some(t);
        } else if starts_with_of(&t, &lit("#extension")) {
            let ghost old_e = views(exts@);
            exts.push(t);
            assert(views(exts@) =~= old_e.push(t@));
        } else if !starts_with_of(&t, &lit("#")) {
            break;
        }
        i = i + 1;
    }
    let v = match ver {
        Some(v) => v,
        None => {
            return None;
        },
    };
    let mut h = v;
    extend(&mut h, &lit("\n"));
    let mut k: usize = 0;
    while k < exts.len()
        invariant
            k <= exts.len(),
            h@ == v@ + "\n"@ + terminated(views(exts@).take(k as int)),
        decreases exts.len() - k,
    {
        extend(&mut h, &exts[k]);
        extend(&mut h, &lit("\n"));
        proof {
            let e = views(exts@);
            assert(e.take(k + 1).drop_last() =~= e.take(k as int));
            assert(e.take(k + 1).last() == exts@[k as int]@);
        }
        k = k + 1;
    }
    assert(views(exts@).take(exts.len() as int) =~= views(exts@));
    extend(&mut h, &lit("#line 1\n"));
    Some(string_of(&h))
}


/// Extensions of the sibling files searched for a file that includes a header.
pub const SIBLING_EXTENSIONS: [&'static str; 7] = ["vert", "frag", "geom", "comp", "tesc", "tese", "glsl"];

/// Some line, trimmed, starts with `#version`.
pub open spec fn has_version_line(ls: Seq<Seq<char>>) -> bool {
    exists|i: int| 0 <= i < ls.len() && starts_with(trim(#[trigger] ls[i]), "#version"@)
}

/// Whether some line of the text, trimmed, starts with `#version`.
pub fn has_version_directive(text: &str) -> (r: bool)
    ensures
        r == has_version_line(lines_of(text@)),
{
    let s = chars_of(text);
    let ls = lines_of_vec(&s);
    let kw = lit("#version");
    let mut i: usize = 0;
    while i < ls.len()
        invariant
            i <= ls.len(),
            views(ls@) == lines_of(text@),
            kw@ == "#version"@,
            forall|j: int| 0 <= j < i ==> !starts_with(trim(#[trigger] views(ls@)[j]), "#version"@),
        decreases ls.len() - i,
    {
        let t = trim_of(&ls[i]);
        assert(views(ls@)[i as int] == ls@[i as int]@);
        if starts_with_of(&t, &kw) {
            return true;
        }
        i = i + 1;
    }
    false
}

/// A line that includes a file whose name contains `filename`: trimmed, it
/// starts with `#include`, and it (trimmed if `trimmed`) contains the name.
pub open spec fn include_line(l: Seq<char>, filename: Seq<char>, trimmed: bool) -> bool {
    starts_with(trim(l), "#include"@) && contains(
        if trimmed {
            trim(l)
        } else {
            l
        },
        filename,
    )
}

/// Some line includes `filename`.
pub open spec fn includes_name(ls: Seq<Seq<char>>, filename: Seq<char>, trimmed: bool) -> bool {
    exists|i: int| 0 <= i < ls.len() && include_line(#[trigger] ls[i], filename, trimmed)
}

fn includes_name_of(text: &Vec<char>, filename: &Vec<char>, trimmed: bool) -> (r: bool)
    ensures
        r == includes_name(lines_of(text@), filename@, trimmed),
{
    let ls = lines_of_vec(text);
    let kw = lit("#include");
    let mut i: usize = 0;
    while i < ls.len()
        invariant
            i <= ls.len(),
            views(ls@) == lines_of(text@),
            kw@ == "#include"@,
            forall|j: int| 0 <= j < i ==> !include_line(#[trigger] views(ls@)[j], filename@, trimmed),
        decreases ls.len() - i,
    {
        let t = trim_of(&ls[i]);
        assert(views(ls@)[i as int] == ls@[i as int]@);
        if starts_with_of(&t, &kw) {
            let hit = if trimmed {
                contains_of(&t, filename)
            } else {
                contains_of(&ls[i], filename)
            };
            if hit {
                return true;
            }
        }
        i = i + 1;
    }
    false
}

/// The open documents as pairs of URI and text.
pub open spec fn docs_view(d: Seq<(String, String)>) -> Seq<(Seq<char>, Seq<char>)> {
    d.map_values(|p: (String, String)| (p.0@, p.1@))
}

/// Sibling files as pairs of extension and (readable) text.
pub open spec fn siblings_view(d: Seq<(String, Option<String>)>) -> Seq<(Seq<char>, Option<Seq<char>>)> {
    d.map_values(|p: (String, Option<String>)| (p.0@, opt_view(p.1)))
}

/// The header of the first open document (from `i` on), other than `uri`,
/// that includes `filename` and has a `#version`.
pub open spec fn parent_header(
    docs: Seq<(Seq<char>, Seq<char>)>,
    uri: Seq<char>,
    filename: Seq<char>,
    i: int,
) -> Option<Seq<char>>
    decreases docs.len() - i,
{
    if i < 0 || i >= docs.len() {
        None
    } else if docs[i].0 != uri && includes_name(lines_of(docs[i].1), filename, true) && version_header(
        docs[i].1,
    ) is Some {
        version_header(docs[i].1)
    } else {
        parent_header(docs, uri, filename, i + 1)
    }
}

/// The header of the first sibling file (from `i` on) that includes
/// `filename` and has a `#version`; sibling files of other extensions are
/// passed over, and the search stops at the seventeenth shader file
/// (`checked` shader files were looked at before `i`).
pub open spec fn sibling_header(
    sibs: Seq<(Seq<char>, Option<Seq<char>>)>,
    filename: Seq<char>,
    i: int,
    checked: int,
) -> Option<Seq<char>>
    decreases sibs.len() - i,
{
    if i < 0 || i >= sibs.len() {
        None
    } else if !in_list(sibs[i].0, SIBLING_EXTENSIONS) {
        sibling_header(sibs, filename, i + 1, checked)
    } else if checked >= 16 {
        None
    } else if sibs[i].1 is Some && filename.len() > 0 && includes_name(
        lines_of(sibs[i].1.unwrap()),
        filename,
        false,
    ) && version_header(sibs[i].1.unwrap()) is Some {
        version_header(sibs[i].1.unwrap())
    } else {
        sibling_header(sibs, filename, i + 1, checked + 1)
    }
}

/// The header of the first open document (from `i` on), other than `uri`,
/// that has a `#version`.
pub open spec fn any_header(docs: Seq<(Seq<char>, Seq<char>)>, uri: Seq<char>, i: int) -> Option<Seq<char>>
    decreases docs.len() - i,
{
    if i < 0 || i >= docs.len() {
        None
    } else if docs[i].0 != uri && version_header(docs[i].1) is Some {
        version_header(docs[i].1)
    } else {
        any_header(docs, uri, i + 1)
    }
}

/// The header used when nothing else gives one.
pub open spec fn default_header(target: TargetApi) -> Seq<char> {
    match target {
        TargetApi::OpenGl => "#version 460 core\n#line 1\n"@,
        TargetApi::Vulkan => "#version 460\n#line 1\n"@,
    }
}

/// The header made from a configured version such as `450 core`.
pub open spec fn configured_header(c: Seq<char>) -> Seq<char> {
    let t = trim(c);
    (if starts_with(t, "#version"@) {
        t
    } else {
        "#version "@ + t
    }) + "\n#line 1\n"@
}

/// The `#version` header put before a shader that lacks one: none if it has
/// one; else the configured version; else the header of an open document
/// that includes this file; else that of a sibling file that includes it;
/// else that of any other open document; else the default for the target.
pub open spec fn resolved_header(
    uri: Seq<char>,
    text: Seq<char>,
    target: TargetApi,
    docs: Seq<(Seq<char>, Seq<char>)>,
    configured: Option<Seq<char>>,
    filename: Seq<char>,
    sibs: Seq<(Seq<char>, Option<Seq<char>>)>,
) -> Option<Seq<char>> {
    if has_version_line(lines_of(text)) {
        None
    } else if configured is Some && trim(configured.unwrap()).len() > 0 {
        Some(configured_header(configured.unwrap()))
    } else if filename.len() > 0 && parent_header(docs, uri, filename, 0) is Some {
        parent_header(docs, uri, filename, 0)
    } else if sibling_header(sibs, filename, 0, 0) is Some {
        sibling_header(sibs, filename, 0, 0)
    } else if any_header(docs, uri, 0) is Some {
        any_header(docs, uri, 0)
    } else {
        Some(default_header(target))
    }
}

fn parent_header_of(docs: &Vec<(String, String)>, uri: &Vec<char>, filename: &Vec<char>) -> (r: Option<String>)
    ensures
        opt_view(r) == parent_header(docs_view(docs@), uri@, filename@, 0),
{
    let mut i: usize = 0;
    while i < docs.len()
        invariant
            i <= docs.len(),
            parent_header(docs_view(docs@), uri@, filename@, 0) == parent_header(docs_view(docs@), uri@, filename@, i as int),
        decreases docs.len() - i,
    {
        let u = chars_of(docs[i].0.as_str());
        let t = chars_of(docs[i].1.as_str());
        assert(docs_view(docs@)[i as int] == (docs@[i as int].0@, docs@[i as int].1@));
        if !eq(&u, uri) && includes_name_of(&t, filename, true) {
            let h = extract_version_and_extensions(docs[i].1.as_str());
            if h.is_some() {
                return h;
            }
        }
        i = i + 1;
    }
    None
}

fn sibling_header_of(sibs: &Vec<(String, Option<String>)>, filename: &Vec<char>) -> (r: Option<String>)
    ensures
        opt_view(r) == sibling_header(siblings_view(sibs@), filename@, 0, 0),
{
    let mut i: usize = 0;
    let mut checked: usize = 0;
    while i < sibs.len()
        invariant
            i <= sibs.len(),
            checked <= i,
            sibling_header(siblings_view(sibs@), filename@, 0, 0) == sibling_header(
                siblings_view(sibs@),
                filename@,
                i as int,
                checked as int,
            ),
        decreases sibs.len() - i,
    {
        let ext = chars_of(sibs[i].0.as_str());
        assert(siblings_view(sibs@)[i as int] == (sibs@[i as int].0@, opt_view(sibs@[i as int].1)));
        if word_in_list(&ext, &SIBLING_EXTENSIONS) {
            if checked >= 16 {
                return None;
            }
            match &sibs[i].1 {
                Some(text) => {
                    let t = chars_of(text.as_str());
                    if filename.len() > 0 && includes_name_of(&t, filename, false) {
                        let h = extract_version_and_extensions(text.as_str());
                        if h.is_some() {
                            return h;
                        }
                    }
                },
                None => {},
            }
            checked = checked + 1;
        }
        i = i + 1;
    }
    None
}

fn any_header_of(docs: &Vec<(String, String)>, uri: &Vec<char>) -> (r: Option<String>)
    ensures
        opt_view(r) == any_header(docs_view(docs@), uri@, 0),
{
    let mut i: usize = 0;
    while i < docs.len()
        invariant
            i <= docs.len(),
            any_header(docs_view(docs@), uri@, 0) == any_header(docs_view(docs@), uri@, i as int),
        decreases docs.len() - i,
    {
        let u = chars_of(docs[i].0.as_str());
        assert(docs_view(docs@)[i as int] == (docs@[i as int].0@, docs@[i as int].1@));
        if !eq(&u, uri) {
            let h = extract_version_and_extensions(docs[i].1.as_str());
            if h.is_some() {
                return h;
            }
        }
        i = i + 1;
    }
    None
}

/// Resolves the `#version` header to put before a shader that lacks one.
/// `doc_cache` holds the open documents (URI and text), `filename` the file
/// name of `uri`, and `siblings` the other files of its directory (extension
/// and the text of their first lines, where they could be read).
pub fn resolve_glsl_version_header(
    uri: &str,
    text: &str,
    target: TargetApi,
    doc_cache: &Vec<(String, String)>,
    configured_version: Option<&str>,
    filename: &str,
    siblings: &Vec<(String, Option<String>)>,
) -> (r: Option<String>)
    ensures
        opt_view(r) == resolved_header(
            uri@,
            text@,
            target,
            docs_view(doc_cache@),
            opt_str_view(configured_version),
            filename@,
            siblings_view(siblings@),
        ),
{
    if has_version_directive(text) {
        return None;
    }
    match configured_version {
        Some(c) => {
            let cv = chars_of(c);
            let t = trim_of(&cv);
            if t.len() > 0 {
                let mut h = if starts_with_of(&t, &lit("#version")) {
                    t
                } else {
                    let mut v = lit("#version ");
                    extend(&mut v, &t);
                    v
                };
                extend(&mut h, &lit("\n#line 1\n"));
                return Some(string_of(&h));
            }
        },
        None => {},
    }
    let u = chars_of(uri);
    let f = chars_of(filename);
    if f.len() > 0 {
        let p = parent_header_of(doc_cache, &u, &f);
        if p.is_some() {
            return p;
        }
    }
    let sb = sibling_header_of(siblings, &f);
    if sb.is_some() {
        return sb;
    }
    let a = any_header_of(doc_cache, &u);
    if a.is_some() {
        return a;
    }
    match target {
        TargetApi::OpenGl => Some(string_of(&lit("#version 460 core\n#line 1\n"))),
        TargetApi::Vulkan => Some(string_of(&lit("#version 460\n#line 1\n"))),
    }
}

} // verus!
