//! The server's settings, as given when it starts and as changed later, and
//! the framing of protocol messages.
use vstd::prelude::*;
use crate::config::{FormatterEngine, TargetApi, eq_ignore_ascii_case_of};
use crate::symbols::{lit, opt_clone, opt_view};
use crate::text::{
    chars_of, eq, eq_ignore_ascii_case, extend, starts_with, starts_with_of, str_to_lowercase, string_of,
    lowercase, trim, trim_of,
};

verus! {

/// The settings that the server keeps.
pub struct ServerSettings {
    pub default_target: TargetApi,
    pub default_engine: FormatterEngine,
    pub glslang_path: Option<String>,
    pub analyzer_path: Option<String>,
    pub clang_path: Option<String>,
    pub default_version: Option<String>,
}

/// The values found in a settings object (each trimmed; absent where not given).
pub struct SettingValues {
    pub target_api: Option<String>,
    pub formatter: Option<String>,
    pub glslang_path: Option<String>,
    pub analyzer_path: Option<String>,
    pub clang_path: Option<String>,
    pub default_version: Option<String>,
}

/// What a change of configuration asks of the server.
pub struct ConfigChange {
    /// The open documents are to be validated again.
    pub revalidate: bool,
    /// The compiler is to be looked up again (with the new custom path).
    pub relocate_compiler: bool,
    /// A new analyzer is to be started from this path.
    pub start_analyzer: Option<String>,
}

/// Mathematical value of [`ServerSettings`].
pub struct SettingsView {
    pub default_target: TargetApi,
    pub default_engine: FormatterEngine,
    pub glslang_path: Option<Seq<char>>,
    pub analyzer_path: Option<Seq<char>>,
    pub clang_path: Option<Seq<char>>,
    pub default_version: Option<Seq<char>>,
}

/// Mathematical value of [`SettingValues`].
pub struct ValuesView {
    pub target_api: Option<Seq<char>>,
    pub formatter: Option<Seq<char>>,
    pub glslang_path: Option<Seq<char>>,
    pub analyzer_path: Option<Seq<char>>,
    pub clang_path: Option<Seq<char>>,
    pub default_version: Option<Seq<char>>,
}

impl View for ServerSettings {
    type V = SettingsView;

    open spec fn view(&self) -> SettingsView {
        SettingsView {
            default_target: self.default_target,
            default_engine: self.default_engine,
            glslang_path: opt_view(self.glslang_path),
            analyzer_path: opt_view(self.analyzer_path),
            clang_path: opt_view(self.clang_path),
            default_version: opt_view(self.default_version),
        }
    }
}

impl View for SettingValues {
    type V = ValuesView;

    open spec fn view(&self) -> ValuesView {
        ValuesView {
            target_api: opt_view(self.target_api),
            formatter: opt_view(self.formatter),
            glslang_path: opt_view(self.glslang_path),
            analyzer_path: opt_view(self.analyzer_path),
            clang_path: opt_view(self.clang_path),
            default_version: opt_view(self.default_version),
        }
    }
}

/// The target that `parse_target` gives for `s`.
pub open spec fn target_of(s: Seq<char>) -> TargetApi {
    if eq_ignore_ascii_case(s, "vulkan"@) || eq_ignore_ascii_case(s, "vk"@) {
        TargetApi::Vulkan
    } else {
        TargetApi::OpenGl
    }
}

/// The engine that `parse_engine` gives for `s`.
pub open spec fn engine_of(s: Seq<char>) -> FormatterEngine {
    if eq_ignore_ascii_case(s, "clang-format"@) || eq_ignore_ascii_case(s, "clang"@) {
        FormatterEngine::ClangFormat
    } else {
        FormatterEngine::Builtin
    }
}

/// A path setting at start-up: a non-empty value is taken, else the old one stays.
pub open spec fn initial_path(old: Option<Seq<char>>, v: Option<Seq<char>>) -> Option<Seq<char>> {
    match v {
        Some(p) => if p.len() > 0 {
            Some(p)
        } else {
            old
        },
        None => old,
    }
}

/// The settings after start-up options: targets and engines are parsed,
/// non-empty paths and versions taken.
pub open spec fn initialized(s: SettingsView, v: ValuesView) -> SettingsView {
    SettingsView {
        default_target: match v.target_api {
            Some(t) => target_of(t),
            None => s.default_target,
        },
        default_engine: match v.formatter {
            Some(f) => engine_of(f),
            None => s.default_engine,
        },
        glslang_path: initial_path(s.glslang_path, v.glslang_path),
        analyzer_path: initial_path(s.analyzer_path, v.analyzer_path),
        clang_path: initial_path(s.clang_path, v.clang_path),
        default_version: initial_path(s.default_version, v.default_version),
    }
}

/// A resettable setting after a change of configuration: a non-empty value
/// is taken, an empty one resets it, an absent one keeps it.
pub open spec fn changed_path(old: Option<Seq<char>>, v: Option<Seq<char>>) -> Option<Seq<char>> {
    match v {
        Some(p) => if p.len() > 0 {
            Some(p)
        } else {
            None
        },
        None => old,
    }
}

/// The analyzer path after a change of configuration: only a non-empty value counts.
pub open spec fn changed_analyzer(old: Option<Seq<char>>, v: Option<Seq<char>>) -> Option<Seq<char>> {
    initial_path(old, v)
}

/// The settings after a change of configuration.
pub open spec fn reconfigured(s: SettingsView, v: ValuesView) -> SettingsView {
    SettingsView {
        default_target: match v.target_api {
            Some(t) => target_of(t),
            None => s.default_target,
        },
        default_engine: match v.formatter {
            Some(f) => engine_of(f),
            None => s.default_engine,
        },
        glslang_path: changed_path(s.glslang_path, v.glslang_path),
        analyzer_path: changed_analyzer(s.analyzer_path, v.analyzer_path),
        clang_path: changed_path(s.clang_path, v.clang_path),
        default_version: changed_path(s.default_version, v.default_version),
    }
}

fn opt_eq(a: &Option<String>, b: &Option<String>) -> (r: bool)
    ensures
        r == (opt_view(*a) == opt_view(*b)),
{
    match (a, b) {
        (Some(x), Some(y)) => eq(&chars_of(x.as_str()), &chars_of(y.as_str())),
        (None, None) => true,
        _ => false,
    }
}

fn parse_target_of(s: &String) -> (r: TargetApi)
    ensures
        r == target_of(s@),
{
    TargetApi::parse_target(s.as_str())
}

fn parse_engine_of(s: &String) -> (r: FormatterEngine)
    ensures
        r == engine_of(s@),
{
    FormatterEngine::parse_engine(s.as_str())
}

fn nonempty(s: &String) -> (r: bool)
    ensures
        r == (s@.len() > 0),
{
    chars_of(s.as_str()).len() > 0
}

impl ServerSettings {
    /// The settings before any option: OpenGL, clang-format, no custom paths.
    pub fn new() -> (r: ServerSettings)
        ensures
            r@ == (SettingsView {
                default_target: TargetApi::OpenGl,
                default_engine: FormatterEngine::ClangFormat,
                glslang_path: None,
                analyzer_path: None,
                clang_path: None,
                default_version: None,
            }),
    {
        ServerSettings {
            default_target: TargetApi::OpenGl,
            default_engine: FormatterEngine::ClangFormat,
            glslang_path: None,
            analyzer_path: None,
            clang_path: None,
            default_version: None,
        }
    }

    /// Takes the start-up options (see [`initialized`]); returns whether a
    /// custom compiler path was given, so that the compiler is looked up again.
    pub fn initialize(&mut self, v: &SettingValues) -> (relocate: bool)
        ensures
            final(self)@ == initialized(old(self)@, v@),
            relocate == (v@.glslang_path is Some && v@.glslang_path.unwrap().len() > 0),
    {
        match &v.target_api {
            Some(t) => {
                self.default_target = parse_target_of(t);
            },
            None => {},
        }
        match &v.formatter {
            Some(f) => {
                self.default_engine = parse_engine_of(f);
            },
            None => {},
        }
        let mut relocate = false;
        match &v.glslang_path {
            Some(p) => if nonempty(p) {
                self.glslang_path = Some(p.clone());
                relocate = true;
            },
            None => {},
        }
        match &v.analyzer_path {
            Some(p) => if nonempty(p) {
                self.analyzer_path = Some(p.clone());
            },
            None => {},
        }
        match &v.clang_path {
            Some(p) => if nonempty(p) {
                self.clang_path = Some(p.clone());
            },
            None => {},
        }
        match &v.default_version {
            Some(p) => if nonempty(p) {
                self.default_version = Some(p.clone());
            },
            None => {},
        }
        relocate
    }

    /// Takes a change of configuration (see [`reconfigured`]) and says what
    /// it asks for: validation again when the target, the compiler path or
    /// the default version changed; a new compiler lookup when its path
    /// changed; a new analyzer when a different analyzer path was given.
    pub fn apply_configuration(&mut self, v: &SettingValues) -> (r: ConfigChange)
        ensures
            final(self)@ == reconfigured(old(self)@, v@),
            r.relocate_compiler == (old(self)@.glslang_path != final(self)@.glslang_path),
            r.revalidate == (old(self)@.default_target != final(self)@.default_target || old(self)@.glslang_path
                != final(self)@.glslang_path || old(self)@.default_version != final(self)@.default_version),
            opt_view(r.start_analyzer) == (if old(self)@.analyzer_path != final(self)@.analyzer_path {
                final(self)@.analyzer_path
            } else {
                None
            }),
    {
        let mut revalidate = false;
        let mut relocate = false;
        let mut start: Option<String> = None;
        match &v.target_api {
            Some(t) => {
                let nt = parse_target_of(t);
                if nt != self.default_target {
                    self.default_target = nt;
                    revalidate = true;
                }
            },
            None => {},
        }
        match &v.glslang_path {
            Some(p) => {
                if nonempty(p) {
                    let np = Some(p.clone());
                    if !opt_eq(&self.glslang_path, &np) {
                        self.glslang_path = np;
                        relocate = true;
                        revalidate = true;
                    }
                } else if self.glslang_path.is_some() {
                    self.glslang_path = None;
                    relocate = true;
                    revalidate = true;
                }
            },
            None => {},
        }
        match &v.clang_path {
            Some(p) => {
                if nonempty(p) {
                    self.clang_path = Some(p.clone());
                } else {
                    self.clang_path = None;
                }
            },
            None => {},
        }
        match &v.default_version {
            Some(p) => {
                if nonempty(p) {
                    let np = Some(p.clone());
                    if !opt_eq(&self.default_version, &np) {
                        self.default_version = np;
                        revalidate = true;
                    }
                } else if self.default_version.is_some() {
                    self.default_version = None;
                    revalidate = true;
                }
            },
            None => {},
        }
        match &v.formatter {
            Some(f) => {
                self.default_engine = parse_engine_of(f);
            },
            None => {},
        }
        match &v.analyzer_path {
            Some(p) => {
                if nonempty(p) {
                    let np = Some(p.clone());
                    if !opt_eq(&self.analyzer_path, &np) {
                        self.analyzer_path = Some(p.clone());
                        start = Some(p.clone());
                    }
                }
            },
            None => {},
        }
        ConfigChange { revalidate, relocate_compiler: relocate, start_analyzer: start }
    }
}

/// The decimal digits of a header value: one or more digits.
pub open spec fn header_value(t: Seq<char>) -> Option<nat> {
    if t.len() > 0 && crate::diagnostics::all_digits(t) && crate::diagnostics::digits_value(t) <= usize::MAX {
        Some(crate::diagnostics::digits_value(t))
    } else {
        None
    }
}

/// The length that a protocol header line announces: the line, trimmed and
/// lower-cased, starts with `content-length:`, and the rest, trimmed, is a
/// `usize` (an optional `+`, then digits).
pub open spec fn announced_length(line: Seq<char>) -> Option<nat> {
    let l = lowercase(trim(line));
    if starts_with(l, "content-length:"@) {
        let v = trim(l.skip(15));
        let d = if v.len() > 0 && v[0] == '+' {
            v.skip(1)
        } else {
            v
        };
        header_value(d)
    } else {
        None
    }
}

/// The body length announced by a header line (see [`announced_length`]).
pub fn content_length_of(header_line: &str) -> (r: Option<usize>)
    ensures
        match announced_length(header_line@) {
            Some(n) => r == Some(n as usize),
            None => r is None,
        },
{
    let t = trim_of(&chars_of(header_line));
    let l = chars_of(str_to_lowercase(string_of(&t).as_str()).as_str());
    proof {
        reveal_strlit("content-length:");
    }
    if !starts_with_of(&l, &lit("content-length:")) {
        return None;
    }
    let v = trim_of(&crate::text::slice_of(&l, 15, l.len()));
    assert(v@ =~= trim(l@.skip(15)));
    let start: usize = if v.len() > 0 && v[0] == '+' { 1 } else { 0 };
    let d = crate::text::slice_of(&v, start, v.len());
    assert(start == 0 ==> d@ =~= v@);
    assert(start == 1 ==> d@ =~= v@.skip(1));
    header_value_of(&d)
}

/// The header that goes before a protocol message body of `len` bytes.
pub open spec fn message_header(len: nat) -> Seq<char> {
    "Content-Length: "@ + crate::completion::decimal(len) + "\r\n\r\n"@
}

/// The header that goes before a protocol message body of `len` bytes.
pub fn lsp_header(len: usize) -> (r: String)
    ensures
        r@ == message_header(len as nat),
{
    let mut v = lit("Content-Length: ");
    extend(&mut v, &crate::completion::decimal_of(len));
    extend(&mut v, &lit("\r\n\r\n"));
    string_of(&v)
}


/// The length that a header line of the analyzer's output announces: the
/// trimmed line starts with `content-length:` in any ASCII case, and the
/// rest, trimmed, is a `usize`.
pub open spec fn analyzer_announced_length(line: Seq<char>) -> Option<nat> {
    let t = trim(line);
    if t.len() >= 15 && eq_ignore_ascii_case(t.take(15), "content-length:"@) {
        let v = trim(t.skip(15));
        let d = if v.len() > 0 && v[0] == '+' {
            v.skip(1)
        } else {
            v
        };
        header_value(d)
    } else {
        None
    }
}

fn header_value_of(d: &Vec<char>) -> (r: Option<usize>)
    ensures
        match header_value(d@) {
            Some(n) => r == Some(n as usize),
            None => r is None,
        },
{
    if d.len() == 0 {
        return None;
    }
    let mut n: usize = 0;
    let mut i: usize = 0;
    while i < d.len()
        invariant
            i <= d.len(),
            d.len() > 0,
            forall|j: int| 0 <= j < i ==> '0' <= #[trigger] d@[j] && d@[j] <= '9',
            n == crate::diagnostics::digits_value(d@.take(i as int)),
        decreases d.len() - i,
    {
        let c = d[i];
        if !('0' <= c && c <= '9') {
            assert(!('0' <= d@[i as int] && d@[i as int] <= '9'));
            return None;
        }
        assert(d@.take(i + 1).drop_last() =~= d@.take(i as int));
        assert(d@.take(i + 1).last() == c);
        let dv = ((c as u32) - 48) as usize;
        if n > (usize::MAX - dv) / 10 {
            proof {
                assert(crate::diagnostics::digits_value(d@.take(i + 1)) > usize::MAX) by (nonlinear_arith)
                    requires
                        n > (usize::MAX - dv) / 10,
                        crate::diagnostics::digits_value(d@.take(i + 1)) == n * 10 + dv,
                        dv <= 9,
                ;
                if crate::diagnostics::all_digits(d@) {
                    crate::diagnostics::lemma_digits_grow(d@, i + 1);
                }
            }
            return None;
        }
        n = n * 10 + dv;
        i = i + 1;
    }
    assert(d@.take(d.len() as int) =~= d@);
    Some(n)
}

/// The body length announced by a header line of the analyzer (see
/// [`analyzer_announced_length`]).
pub fn analyzer_content_length(header_line: &str) -> (r: Option<usize>)
    ensures
        match analyzer_announced_length(header_line@) {
            Some(n) => r == Some(n as usize),
            None => r is None,
        },
{
    let t = trim_of(&chars_of(header_line));
    if t.len() < 15 {
        return None;
    }
    let head = crate::text::slice_of(&t, 0, 15);
    assert(head@ =~= t@.take(15));
    if !eq_ignore_ascii_case_of(&head, &lit("content-length:")) {
        return None;
    }
    let v = trim_of(&crate::text::slice_of(&t, 15, t.len()));
    assert(v@ =~= trim(t@.skip(15)));
    let start: usize = if v.len() > 0 && v[0] == '+' { 1 } else { 0 };
    let d = crate::text::slice_of(&v, start, v.len());
    assert(start == 0 ==> d@ =~= v@);
    assert(start == 1 ==> d@ =~= v@.skip(1));
    header_value_of(&d)
}

} // verus!
