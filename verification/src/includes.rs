//! The walk through `#include` directives that gathers the functions and
//! variables of included files, depth first, each file once. The walk asks
//! for the text of each included file and is handed it back; paths are
//! `/`-separated.
use vstd::prelude::*;
use crate::config::{path_to_uri, path_uri, uri_path, uri_to_path};
use crate::symbols::{FunctionSignature, FunctionView, functions_view, lit, opt_view, scan_user_functions, user_functions};
use crate::text::{
    chars_of, ends_with, ends_with_of, eq, extend, lead, lines_of, lines_of_vec, rfind, rfind_of, slice_of,
    starts_with, starts_with_of, string_of, trail, trim, trim_of, views,
};
use crate::variables::{VariableSymbol, VariableView, scan_user_variables, user_variables, variables_view};

verus! {

pub open spec fn quote_pred() -> spec_fn(char) -> bool {
    |c: char| c == '"' || c == '<' || c == '>'
}

/// `s` without leading and trailing quotes and angle brackets.
pub open spec fn strip_quotes(s: Seq<char>) -> Seq<char> {
    let a = s.skip(lead(s, quote_pred()) as int);
    a.take(a.len() - trail(a, quote_pred()))
}

/// The file named by an `#include` line, if the line is one and names a file.
pub open spec fn include_target(line: Seq<char>) -> Option<Seq<char>> {
    let t = trim(line);
    if starts_with(t, "#include"@) && strip_quotes(trim(t.skip(8))).len() > 0 {
        Some(strip_quotes(trim(t.skip(8))))
    } else {
        None
    }
}

/// The directory of a path: what comes before its last `/` (the root for a
/// path directly under it, empty for a bare name); none for the root or
/// the empty path.
pub open spec fn parent_dir(p: Seq<char>) -> Option<Seq<char>> {
    match rfind(p, "/"@) {
        None => if p.len() > 0 {
            Some(seq![])
        } else {
            None
        },
        Some(k) => if k == 0 {
            if p.len() > 1 {
                Some("/"@)
            } else {
                None
            }
        } else {
            Some(p.take(k))
        },
    }
}

/// The last component of a path, if it is not empty.
pub open spec fn file_name(p: Seq<char>) -> Option<Seq<char>> {
    let n = match rfind(p, "/"@) {
        None => p,
        Some(k) => p.skip(k + 1),
    };
    if n.len() > 0 {
        Some(n)
    } else {
        None
    }
}

/// `target` taken relative to directory `dir` (an absolute target stays).
pub open spec fn join_path(dir: Seq<char>, target: Seq<char>) -> Seq<char> {
    if starts_with(target, "/"@) || dir.len() == 0 {
        target
    } else if ends_with(dir, "/"@) {
        dir + target
    } else {
        dir + "/"@ + target
    }
}

pub open spec fn slash_pred() -> spec_fn(char) -> bool {
    |c: char| c == '/'
}

/// The URI under which an open document with this path is known.
pub open spec fn live_uri(path: Seq<char>) -> Seq<char> {
    let s = crate::config::forward_slashes(path);
    "file:///"@ + s.skip(lead(s, slash_pred()) as int)
}

/// A file that the walk wants to read: its path, the label its symbols get,
/// the URIs of an open document and of a file on disk with that path, and
/// the depth of the include.
pub struct IncludeRequest {
    pub path: String,
    pub label: String,
    pub live_uri: String,
    pub disk_uri: String,
    pub depth: usize,
}

/// Mathematical value of an [`IncludeRequest`].
pub struct RequestView {
    pub path: Seq<char>,
    pub label: Seq<char>,
    pub live_uri: Seq<char>,
    pub disk_uri: Seq<char>,
    pub depth: nat,
}

impl View for IncludeRequest {
    type V = RequestView;

    open spec fn view(&self) -> RequestView {
        RequestView {
            path: self.path@,
            label: self.label@,
            live_uri: self.live_uri@,
            disk_uri: self.disk_uri@,
            depth: self.depth as nat,
        }
    }
}

/// The request for the file `target` found at `depth`, relative to `dir`.
pub open spec fn request_for(dir: Seq<char>, target: Seq<char>, depth: nat) -> RequestView {
    let c = join_path(dir, target);
    RequestView {
        path: c,
        label: match file_name(c) {
            Some(n) => n,
            None => target,
        },
        live_uri: live_uri(c),
        disk_uri: path_uri(c),
        depth,
    }
}

/// A text being read for includes: its lines, the next line, its directory
/// and its depth.
pub struct Frame {
    lines: Vec<Vec<char>>,
    next: usize,
    dir: Vec<char>,
    depth: usize,
}

/// Mathematical value of a [`Frame`].
pub struct FrameView {
    pub lines: Seq<Seq<char>>,
    pub next: nat,
    pub dir: Seq<char>,
    pub depth: nat,
}

impl View for Frame {
    type V = FrameView;

    closed spec fn view(&self) -> FrameView {
        FrameView { lines: views(self.lines@), next: self.next as nat, dir: self.dir@, depth: self.depth as nat }
    }
}

pub open spec fn frames_view(v: Seq<Frame>) -> Seq<FrameView> {
    v.map_values(|f: Frame| f@)
}

/// The lines left to read, plus one for each frame.
pub open spec fn pending(frames: Seq<FrameView>) -> nat
    decreases frames.len(),
{
    if frames.len() == 0 {
        0
    } else {
        pending(frames.drop_last()) + (if frames.last().next < frames.last().lines.len() {
            (frames.last().lines.len() - frames.last().next) as nat
        } else {
            0
        }) + 1
    }
}

/// The next step of the walk from the given frames and visited paths: the
/// next file to read (an include line of the innermost text not read yet,
/// whose path was not visited, at a depth of at most eight), with the frames
/// and visited paths after it. Paths found are visited even where the depth
/// is too great.
pub open spec fn advance(frames: Seq<FrameView>, visited: Seq<Seq<char>>) -> (
    Option<RequestView>,
    Seq<FrameView>,
    Seq<Seq<char>>,
)
    decreases pending(frames),
{
    if frames.len() == 0 {
        (None, frames, visited)
    } else {
        let f = frames.last();
        if f.next >= f.lines.len() {
            advance(frames.drop_last(), visited)
        } else {
            let fr2 = frames.drop_last().push(FrameView { next: f.next + 1, ..f });
            proof {
                assert(fr2.drop_last() =~= frames.drop_last());
            }
            match include_target(f.lines[f.next as int]) {
                None => advance(fr2, visited),
                Some(t) => {
                    let c = join_path(f.dir, t);
                    if visited.contains(c) {
                        advance(fr2, visited)
                    } else if f.depth > 8 {
                        advance(fr2, visited.push(c))
                    } else {
                        (Some(request_for(f.dir, t, f.depth)), fr2, visited.push(c))
                    }
                },
            }
        }
    }
}

/// The state of an include walk.
pub struct IncludeWalk {
    frames: Vec<Frame>,
    visited: Vec<Vec<char>>,
    functions: Vec<FunctionSignature>,
    variables: Vec<VariableSymbol>,
    own_functions: Ghost<Seq<FunctionView>>,
    own_variables: Ghost<Seq<VariableView>>,
    files_added: Ghost<nat>,
}

impl IncludeWalk {
    /// The frames of the walk.
    pub closed spec fn frames(&self) -> Seq<FrameView> {
        frames_view(self.frames@)
    }

    /// The functions gathered so far.
    pub closed spec fn funcs(&self) -> Seq<FunctionView> {
        functions_view(self.functions@)
    }

    /// The variables gathered so far.
    pub closed spec fn vars(&self) -> Seq<VariableView> {
        variables_view(self.variables@)
    }

    /// The paths visited so far.
    pub closed spec fn visited(&self) -> Seq<Seq<char>> {
        views(self.visited@)
    }

    /// The functions of the document the walk started from.
    pub closed spec fn own_funcs(&self) -> Seq<FunctionView> {
        self.own_functions@
    }

    /// The variables of the document the walk started from.
    pub closed spec fn own_vars(&self) -> Seq<VariableView> {
        self.own_variables@
    }

    /// The number of files added to the walk.
    pub closed spec fn added(&self) -> nat {
        self.files_added@
    }

    /// Frames never read past their lines, and depths stay small; the
    /// document's own symbols come first, and are all there is while no
    /// file was added.
    pub closed spec fn wf(&self) -> bool {
        &&& forall|i: int| 0 <= i < self.frames@.len() ==> (#[trigger] self.frames@[i]).next <= self.frames@[i].lines@.len()
            && self.frames@[i].depth < usize::MAX
        &&& self.own_funcs().len() <= self.funcs().len()
        &&& self.funcs().take(self.own_funcs().len() as int) == self.own_funcs()
        &&& self.own_vars().len() <= self.vars().len()
        &&& self.vars().take(self.own_vars().len() as int) == self.own_vars()
        &&& self.added() == 0 ==> self.funcs() == self.own_funcs() && self.vars() == self.own_vars()
    }
}


fn strip_quotes_of(s: &Vec<char>) -> (r: Vec<char>)
    ensures
        r@ == strip_quotes(s@),
{
    let mut a: usize = 0;
    while a < s.len() && (s[a] == '"' || s[a] == '<' || s[a] == '>')
        invariant
            a <= s.len(),
            forall|j: int| 0 <= j < a ==> #[trigger] quote_pred()(s@[j]),
        decreases s.len() - a,
    {
        a = a + 1;
    }
    proof {
        crate::text::lemma_lead(s@, quote_pred(), a as int);
    }
    let t = slice_of(s, a, s.len());
    let mut k: usize = 0;
    while k < t.len() && (t[t.len() - 1 - k] == '"' || t[t.len() - 1 - k] == '<' || t[t.len() - 1 - k] == '>')
        invariant
            k <= t.len(),
            forall|j: int| t.len() - k <= j < t.len() ==> #[trigger] quote_pred()(t@[j]),
        decreases t.len() - k,
    {
        k = k + 1;
    }
    proof {
        crate::text::lemma_trail(t@, quote_pred(), k as int);
    }
    slice_of(&t, 0, t.len() - k)
}

fn include_target_of(line: &Vec<char>) -> (r: Option<Vec<char>>)
    ensures
        match include_target(line@) {
            Some(t) => r matches Some(w) && w@ == t,
            None => r is None,
        },
{
    let t = trim_of(line);
    let kw = lit("#include");
    proof {
        reveal_strlit("#include");
    }
    if !starts_with_of(&t, &kw) {
        return None;
    }
    let rest = slice_of(&t, 8, t.len());
    assert(rest@ =~= t@.skip(8));
    let tr = trim_of(&rest);
    let tg = strip_quotes_of(&tr);
    if tg.len() > 0 {
        Some(tg)
    } else {
        None
    }
}

fn parent_dir_of(p: &Vec<char>) -> (r: Option<Vec<char>>)
    ensures
        match parent_dir(p@) {
            Some(d) => r matches Some(w) && w@ == d,
            None => r is None,
        },
{
    match rfind_of(p, &lit("/")) {
        None => if p.len() > 0 {
            Some(Vec::new())
        } else {
            None
        },
        Some(k) => {
            if k == 0 {
                if p.len() > 1 {
                    Some(lit("/"))
                } else {
                    None
                }
            } else {
                proof {
                    crate::text::lemma_rfind_to_facts(p@, "/"@, p@.len() - "/"@.len());
                }
                Some(slice_of(p, 0, k))
            }
        },
    }
}

fn file_name_of(p: &Vec<char>) -> (r: Option<Vec<char>>)
    ensures
        match file_name(p@) {
            Some(n) => r matches Some(w) && w@ == n,
            None => r is None,
        },
{
    let n = match rfind_of(p, &lit("/")) {
        None => slice_of(p, 0, p.len()),
        Some(k) => {
            proof {
                reveal_strlit("/");
                crate::text::lemma_rfind_to_facts(p@, "/"@, p@.len() - "/"@.len());
                assert(crate::text::match_at(p@, "/"@, k as int));
                assert(k + 1 <= p.len());
            }
            slice_of(p, k + 1, p.len())
        },
    };
    assert(p@.subrange(0, p@.len() as int) =~= p@);
    if n.len() > 0 {
        Some(n)
    } else {
        None
    }
}

fn join_path_of(dir: &Vec<char>, target: &Vec<char>) -> (r: Vec<char>)
    ensures
        r@ == join_path(dir@, target@),
{
    let sl = lit("/");
    if starts_with_of(target, &sl) || dir.len() == 0 {
        let r = slice_of(target, 0, target.len());
        assert(r@ =~= target@);
        r
    } else if ends_with_of(dir, &sl) {
        let mut r = slice_of(dir, 0, dir.len());
        assert(r@ =~= dir@);
        extend(&mut r, target);
        r
    } else {
        let mut r = slice_of(dir, 0, dir.len());
        assert(r@ =~= dir@);
        extend(&mut r, &sl);
        extend(&mut r, target);
        r
    }
}

fn live_uri_of(path: &Vec<char>) -> (r: Vec<char>)
    ensures
        r@ == live_uri(path@),
{
    let mut s: Vec<char> = Vec::new();
    let mut i: usize = 0;
    while i < path.len()
        invariant
            i <= path.len(),
            s@ == crate::config::forward_slashes(path@.take(i as int)),
        decreases path.len() - i,
    {
        let c = if path[i] == '\\' { '/' } else { path[i] };
        s.push(c);
        assert(crate::config::forward_slashes(path@.take(i + 1)) =~= crate::config::forward_slashes(path@.take(i as int)).push(c));
        i = i + 1;
    }
    assert(path@.take(path.len() as int) =~= path@);
    let mut k: usize = 0;
    while k < s.len() && s[k] == '/'
        invariant
            k <= s.len(),
            forall|j: int| 0 <= j < k ==> #[trigger] slash_pred()(s@[j]),
        decreases s.len() - k,
    {
        k = k + 1;
    }
    proof {
        crate::text::lemma_lead(s@, slash_pred(), k as int);
    }
    let mut r = lit("file:///");
    extend(&mut r, &slice_of(&s, k, s.len()));
    r
}

fn request_of(dir: &Vec<char>, target: &Vec<char>, depth: usize) -> (r: IncludeRequest)
    ensures
        r@ == request_for(dir@, target@, depth as nat),
{
    let c = join_path_of(dir, target);
    let label = match file_name_of(&c) {
        Some(n) => n,
        None => slice_of(target, 0, target.len()),
    };
    assert(target@.subrange(0, target@.len() as int) =~= target@);
    let cs = string_of(&c);
    IncludeRequest {
        path: string_of(&c),
        label: string_of(&label),
        live_uri: string_of(&live_uri_of(&c)),
        disk_uri: path_to_uri(cs.as_str()),
        depth,
    }
}

fn contains_path(visited: &Vec<Vec<char>>, c: &Vec<char>) -> (r: bool)
    ensures
        r == views(visited@).contains(c@),
{
    let mut i: usize = 0;
    while i < visited.len()
        invariant
            i <= visited.len(),
            forall|j: int| 0 <= j < i ==> views(visited@)[j] != c@,
        decreases visited.len() - i,
    {
        assert(views(visited@)[i as int] == visited@[i as int]@);
        if eq(&visited[i], c) {
            return true;
        }
        i = i + 1;
    }
    false
}

/// The frames a walk starts with: the document itself, read from its
/// directory at depth one, when its URI names a file in a directory.
pub open spec fn initial_frames(uri: Seq<char>, text: Seq<char>, windows: bool) -> Seq<FrameView> {
    match uri_path(uri, windows) {
        Some(p) => match parent_dir(p) {
            Some(d) => seq![FrameView { lines: lines_of(text), next: 0, dir: d, depth: 1 }],
            None => seq![],
        },
        None => seq![],
    }
}

impl IncludeWalk {
    /// A walk over the includes of document `uri` with text `text`, holding
    /// already the functions and variables of the document itself.
    pub fn new(uri: &str, text: &str, windows: bool) -> (r: IncludeWalk)
        ensures
            r.wf(),
            r.frames() == initial_frames(uri@, text@, windows),
            r.visited() == Seq::<Seq<char>>::empty(),
            r.funcs() == user_functions(text@, None, Some(uri@)),
            r.vars() == user_variables(text@, None, Some(uri@)),
            r.own_funcs() == user_functions(text@, None, Some(uri@)),
            r.own_vars() == user_variables(text@, None, Some(uri@)),
            r.added() == 0,
            (forall|i: int|
                0 <= i < lines_of(text@).len() ==> (#[trigger] include_target(lines_of(text@)[i])) is None)
                ==> advance(r.frames(), r.visited()).0 is None,
    {
        proof {
            if forall|i: int|
                0 <= i < lines_of(text@).len() ==> (#[trigger] include_target(lines_of(text@)[i])) is None {
                crate::laws::law_no_includes_no_requests(uri@, text@, windows);
            }
        }
        let functions = scan_user_functions(text, None, Some(uri));
        let variables = scan_user_variables(text, None, Some(uri));
        let mut frames: Vec<Frame> = Vec::new();
        match uri_to_path(uri, windows) {
            Some(p) => {
                let pc = chars_of(p.as_str());
                match parent_dir_of(&pc) {
                    Some(d) => {
                        let t = chars_of(text);
                        let lines = lines_of_vec(&t);
                        frames.push(Frame { lines, next: 0, dir: d, depth: 1 });
                    },
                    None => {},
                }
            },
            None => {},
        }
        let visited: Vec<Vec<char>> = Vec::new();
        let ghost of = functions_view(functions@);
        let ghost ov = variables_view(variables@);
        let r = IncludeWalk {
            frames,
            visited,
            functions,
            variables,
            own_functions: Ghost(of),
            own_variables: Ghost(ov),
            files_added: Ghost(0),
        };
        assert(r.funcs().take(of.len() as int) =~= of);
        assert(r.vars().take(ov.len() as int) =~= ov);
        assert(r.frames() =~= initial_frames(uri@, text@, windows));
        assert(r.visited() =~= Seq::<Seq<char>>::empty());
        r
    }

    /// The next file to read (see [`advance`]); `None` when the walk is done.
    pub fn next_request(&mut self) -> (r: Option<IncludeRequest>)
        requires
            old(self).wf(),
        ensures
            final(self).wf(),
            (match r {
                Some(q) => Some(q@),
                None => None::<RequestView>,
            }, final(self).frames(), final(self).visited()) == advance(old(self).frames(), old(self).visited()),
            final(self).funcs() == old(self).funcs(),
            final(self).vars() == old(self).vars(),
            final(self).own_funcs() == old(self).own_funcs(),
            final(self).own_vars() == old(self).own_vars(),
            final(self).added() == old(self).added(),
    {
        loop
            invariant
                self.wf(),
                self.own_functions@ == old(self).own_functions@,
                self.own_variables@ == old(self).own_variables@,
                self.files_added@ == old(self).files_added@,
                advance(self.frames(), self.visited()) == advance(old(self).frames(), old(self).visited()),
                self.functions@ == old(self).functions@,
                self.variables@ == old(self).variables@,
            decreases pending(self.frames()),
        {
            let ghost fr = self.frames();
            let ghost vi = self.visited();
            if self.frames.len() == 0 {
                return None;
            }
            let mut f = self.frames.pop().unwrap();
            assert(fr.drop_last() =~= frames_view(self.frames@));
            assert(fr.last() == f@);
            if f.next >= f.lines.len() {
                assert(self.frames() == fr.drop_last());
                continue;
            }
            let line = slice_of(&f.lines[f.next], 0, f.lines[f.next].len());
            assert(line@ =~= f@.lines[f.next as int]);
            f.next = f.next + 1;
            let dir = slice_of(&f.dir, 0, f.dir.len());
            assert(dir@ =~= f@.dir);
            let depth = f.depth;
            self.frames.push(f);
            assert(self.frames() =~= fr.drop_last().push(FrameView { next: fr.last().next + 1, ..fr.last() }));
            assert(self.frames().drop_last() =~= fr.drop_last());
            assert(pending(self.frames()) < pending(fr));
            match include_target_of(&line) {
                None => {},
                Some(t) => {
                    let c = join_path_of(&dir, &t);
                    if contains_path(&self.visited, &c) {
                    } else {
                        let cc = slice_of(&c, 0, c.len());
                        assert(cc@ =~= c@);
                        self.visited.push(cc);
                        assert(self.visited() =~= vi.push(c@));
                        if depth <= 8 {
                            return Some(request_of(&dir, &t, depth));
                        }
                    }
                },
            }
        }
    }

    /// The functions and variables gathered, in the order found.
    pub fn into_symbols(self) -> (r: (Vec<FunctionSignature>, Vec<VariableSymbol>))
        ensures
            functions_view(r.0@) == self.funcs(),
            variables_view(r.1@) == self.vars(),
    {
        (self.functions, self.variables)
    }

    /// Adds the functions and variables of the file read for `req` (its
    /// text, under URI `uri`) and, with `recurse`, goes on to the includes
    /// of that text, read from its directory one level deeper.
    pub fn add_file(&mut self, req: &IncludeRequest, text: &str, uri: &str, recurse: bool)
        requires
            old(self).wf(),
            req.depth < usize::MAX - 1,
        ensures
            final(self).wf(),
            final(self).funcs() == old(self).funcs() + user_functions(
                text@,
                Some(req.label@),
                Some(uri@),
            ),
            final(self).vars() == old(self).vars() + user_variables(
                text@,
                Some(req.label@),
                Some(uri@),
            ),
            final(self).visited() == old(self).visited(),
            final(self).own_funcs() == old(self).own_funcs(),
            final(self).own_vars() == old(self).own_vars(),
            final(self).added() == old(self).added() + 1,
            final(self).frames() == (if recurse && parent_dir(req.path@) is Some {
                old(self).frames().push(
                    FrameView { lines: lines_of(text@), next: 0, dir: parent_dir(req.path@).unwrap(), depth: req.depth as nat + 1 },
                )
            } else {
                old(self).frames()
            }),
    {
        let mut fs = scan_user_functions(text, Some(req.label.as_str()), Some(uri));
        let mut vs = scan_user_variables(text, Some(req.label.as_str()), Some(uri));
        let ghost f0 = self.functions@;
        let ghost v0 = self.variables@;
        let ghost fa = fs@;
        let ghost va = vs@;
        self.functions.append(&mut fs);
        self.variables.append(&mut vs);
        assert(functions_view(self.functions@) =~= functions_view(f0) + functions_view(fa));
        assert(variables_view(self.variables@) =~= variables_view(v0) + variables_view(va));
        self.files_added = Ghost(self.files_added@ + 1);
        assert(self.funcs().take(self.own_funcs().len() as int) =~= functions_view(f0).take(self.own_funcs().len() as int));
        assert(self.vars().take(self.own_vars().len() as int) =~= variables_view(v0).take(self.own_vars().len() as int));
        if recurse {
            let pc = chars_of(req.path.as_str());
            match parent_dir_of(&pc) {
                Some(d) => {
                    let ghost fr = self.frames();
                    let t = chars_of(text);
                    let lines = lines_of_vec(&t);
                    let f = Frame { lines, next: 0, dir: d, depth: req.depth + 1 };
                    self.frames.push(f);
                    assert(self.frames() =~= fr.push(f@));
                },
                None => {},
            }
        }
    }
}

/// The directories that may hold included files, for a file in directory
/// `parent` (whose own parent is `grandparent`, if it has one): each of them,
/// then its `include` and `shaders` subdirectories.
pub open spec fn include_dir_candidates(parent: Seq<char>, grandparent: Option<Seq<char>>) -> Seq<Seq<char>> {
    seq![parent, join_path(parent, "include"@), join_path(parent, "shaders"@)] + match grandparent {
        Some(g) => seq![g, join_path(g, "include"@), join_path(g, "shaders"@)],
        None => seq![],
    }
}

/// `dirs` with `d` added at the end when `found` and `d` is not there yet.
pub open spec fn add_new_dir(dirs: Seq<Seq<char>>, d: Seq<char>, found: bool) -> Seq<Seq<char>> {
    if found && !dirs.contains(d) {
        dirs.push(d)
    } else {
        dirs
    }
}

/// The include directories chosen among the candidates, given for each
/// whether it was found (a directory that exists; for the first and fourth,
/// a path that exists): a directory's subdirectories count only when the
/// directory itself was found, and those of the grandparent only when not
/// chosen already.
pub open spec fn chosen_include_dirs(c: Seq<Seq<char>>, found: Seq<bool>) -> Seq<Seq<char>> {
    let first: Seq<Seq<char>> = if found[0] {
        seq![c[0]] + (if found[1] { seq![c[1]] } else { seq![] }) + (if found[2] { seq![c[2]] } else { seq![] })
    } else {
        seq![]
    };
    if c.len() == 6 && found[3] {
        add_new_dir(add_new_dir(first.push(c[3]), c[4], found[4]), c[5], found[5])
    } else {
        first
    }
}

/// The candidate include directories (see [`include_dir_candidates`]).
pub fn include_dir_candidates_of(parent: &str, grandparent: Option<&str>) -> (r: Vec<String>)
    ensures
        views_of_strings(r@) == include_dir_candidates(parent@, opt_view_str(grandparent)),
{
    let p = chars_of(parent);
    let mut out: Vec<String> = Vec::new();
    out.push(string_of(&p));
    out.push(string_of(&join_path_of(&p, &lit("include"))));
    out.push(string_of(&join_path_of(&p, &lit("shaders"))));
    match grandparent {
        Some(gs) => {
            let g = chars_of(gs);
            out.push(string_of(&g));
            out.push(string_of(&join_path_of(&g, &lit("include"))));
            out.push(string_of(&join_path_of(&g, &lit("shaders"))));
        },
        None => {},
    }
    assert(views_of_strings(out@) =~= include_dir_candidates(parent@, opt_view_str(grandparent)));
    out
}

pub open spec fn views_of_strings(v: Seq<String>) -> Seq<Seq<char>> {
    v.map_values(|s: String| s@)
}

pub open spec fn opt_view_str(o: Option<&str>) -> Option<Seq<char>> {
    match o {
        Some(s) => Some(s@),
        None => None,
    }
}

fn contains_string(v: &Vec<String>, d: &String) -> (r: bool)
    ensures
        r == views_of_strings(v@).contains(d@),
{
    let dc = chars_of(d.as_str());
    let mut i: usize = 0;
    while i < v.len()
        invariant
            i <= v.len(),
            dc@ == d@,
            forall|j: int| 0 <= j < i ==> views_of_strings(v@)[j] != d@,
        decreases v.len() - i,
    {
        assert(views_of_strings(v@)[i as int] == v@[i as int]@);
        if eq(&chars_of(v[i].as_str()), &dc) {
            assert(views_of_strings(v@)[i as int] == d@);
            return true;
        }
        i = i + 1;
    }
    false
}

fn push_new_dir(dirs: &mut Vec<String>, d: &String, found: bool)
    ensures
        views_of_strings(final(dirs)@) == add_new_dir(views_of_strings(old(dirs)@), d@, found),
{
    if found && !contains_string(dirs, d) {
        let ghost before = views_of_strings(dirs@);
        dirs.push(d.clone());
        assert(views_of_strings(dirs@) =~= before.push(d@));
    }
}

/// The include directories chosen among `candidates` (see
/// [`chosen_include_dirs`]); `found` says for each candidate whether it was
/// found. There are three or six candidates and as many flags.
pub fn choose_include_dirs(candidates: &Vec<String>, found: &Vec<bool>) -> (r: Vec<String>)
    requires
        candidates@.len() == 3 || candidates@.len() == 6,
        found@.len() == candidates@.len(),
    ensures
        views_of_strings(r@) == chosen_include_dirs(views_of_strings(candidates@), found@),
{
    let ghost c = views_of_strings(candidates@);
    assert(forall|k: int| 0 <= k < candidates@.len() ==> #[trigger] c[k] == candidates@[k]@);
    let mut out: Vec<String> = Vec::new();
    if found[0] {
        out.push(candidates[0].clone());
        if found[1] {
            out.push(candidates[1].clone());
        }
        if found[2] {
            out.push(candidates[2].clone());
        }
    }
    proof {
        let first: Seq<Seq<char>> = if found@[0] {
            seq![c[0]] + (if found@[1] { seq![c[1]] } else { seq![] }) + (if found@[2] { seq![c[2]] } else { seq![] })
        } else {
            seq![]
        };
        assert(views_of_strings(out@) =~= first);
    }
    if candidates.len() == 6 && found[3] {
        let ghost before = views_of_strings(out@);
        out.push(candidates[3].clone());
        assert(views_of_strings(out@) =~= before.push(c[3]));
        push_new_dir(&mut out, &candidates[4], found[4]);
        push_new_dir(&mut out, &candidates[5], found[5]);
    }
    out
}

} // verus!
