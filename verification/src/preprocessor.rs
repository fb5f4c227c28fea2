//! The textual preprocessor: resolves hash-marked source-inclusion
//! directives of the form `#<word> "relative/path"` (where the word is the
//! usual C-style inclusion keyword) against an in-memory table of source
//! files, splicing each target's expansion in place of its directive and
//! leaving all other text untouched.  A path already expanded within one
//! top-level call yields an empty expansion; nesting beyond a fixed depth is
//! a fatal cycle-or-depth error.  Paths are resolved relative to the
//! containing file's directory and compared textually.

use vstd::prelude::*;

use crate::strutil::seg_string;
use crate::strutil::str_chars;
use crate::strutil::str_equal;
use vstd::string::StringExecFns;

verus! {

/// One source file: its path and its text.
#[derive(Debug, Clone, PartialEq)]
pub struct SourceFile {
    pub path: String,
    pub text: String,
}

/// The source files one compilation may draw from, looked up by exact path.
#[derive(Debug, Clone, PartialEq)]
pub struct SourceFiles {
    pub files: Vec<SourceFile>,
}

/// A preprocessing failure: an unreadable (missing) file, or inclusion
/// nesting beyond the depth limit.  Each carries the offending path.
#[derive(Debug, Clone, PartialEq)]
pub enum PreprocessError {
    Io(String),
    CycleOrDepth(String),
}

/// The model of a preprocessing failure.
pub enum PreErrView {
    Io(Seq<char>),
    CycleOrDepth(Seq<char>),
}

impl View for PreprocessError {
    type V = PreErrView;

    open spec fn view(&self) -> PreErrView {
        match self {
            PreprocessError::Io(p) => PreErrView::Io(p@),
            PreprocessError::CycleOrDepth(p) => PreErrView::CycleOrDepth(p@),
        }
    }
}

/// The outcome of one specification-level preprocessing step: the expanded
/// text or the error, and the set of paths visited so far.
pub struct PreOut {
    pub out: Result<Seq<char>, PreErrView>,
    pub visited: Seq<Seq<char>>,
}

/// The inclusion keyword, character by character.
pub open spec fn directive_word() -> Seq<char> {
    seq!['i', 'n', 'c', 'l', 'u', 'd', 'e']
}

/// The whitespace the directive pattern accepts between keyword and path.
pub open spec fn is_pat_ws(c: char) -> bool {
    c == ' ' || c == '\t' || c == '\n' || c == '\r' || c == '\u{000B}' || c == '\u{000C}'
}

/// The end of the whitespace run starting at `i`.
pub open spec fn ws_run_end(s: Seq<char>, i: int) -> int
    decreases s.len() - i,
{
    if i < s.len() && is_pat_ws(s[i]) {
        ws_run_end(s, i + 1)
    } else {
        i
    }
}

/// The position of the next double quote at or after `i`, or the end.
pub open spec fn quote_pos(s: Seq<char>, i: int) -> int
    decreases s.len() - i,
{
    if i < s.len() && s[i] != '"' {
        quote_pos(s, i + 1)
    } else {
        i
    }
}

/// The directive match at position `i`, if any: the quoted path and the
/// position just past the closing quote.  The pattern is a hash, the
/// keyword, at least one whitespace character, and a nonempty quoted path.
pub open spec fn match_at(s: Seq<char>, i: int) -> Option<(Seq<char>, int)> {
    if 0 <= i && i + 8 <= s.len() && s[i] == '#' && s.subrange(i + 1, i + 8) == directive_word() {
        let w = ws_run_end(s, i + 8);
        if w > i + 8 && w < s.len() && s[w] == '"' {
            let q = quote_pos(s, w + 1);
            if q < s.len() && q > w + 1 {
                Some((s.subrange(w + 1, q), q + 1))
            } else {
                None
            }
        } else {
            None
        }
    } else {
        None
    }
}

/// The directory part of a path: everything before its last slash, or the
/// empty text.
pub open spec fn dir_of(p: Seq<char>) -> Seq<char>
    decreases p.len(),
{
    if p.len() == 0 {
        Seq::empty()
    } else if p[p.len() - 1] == '/' {
        p.subrange(0, p.len() - 1)
    } else {
        dir_of(p.drop_last())
    }
}

/// A path joined onto a directory; an absolute path stands alone.
pub open spec fn join_path(dir: Seq<char>, rel: Seq<char>) -> Seq<char> {
    if rel.len() > 0 && rel[0] == '/' {
        rel
    } else if dir.len() == 0 {
        rel
    } else {
        dir + "/"@ + rel
    }
}

/// The text of the first file with the given path, if any.
pub open spec fn lookup(fs: Seq<SourceFile>, p: Seq<char>) -> Option<Seq<char>>
    decreases fs.len(),
{
    if fs.len() == 0 {
        None
    } else if fs[0].path@ == p {
        Some(fs[0].text@)
    } else {
        lookup(fs.drop_first(), p)
    }
}

/// The views of a list of visited paths.
pub open spec fn strs_view(v: Seq<String>) -> Seq<Seq<char>> {
    v.map_values(|s: String| s@)
}

/// The next scan position after a directive: always forward, never past
/// the end.
pub open spec fn step_pos(len: int, i: int, j: int) -> int {
    if j <= i {
        i + 1
    } else if j > len {
        len
    } else {
        j
    }
}

/// Expands one file: past the depth limit it is a cycle-or-depth error; a
/// path already visited in this call expands to nothing; a missing file is
/// an input error; otherwise its text is scanned for directives.
pub open spec fn sp_process(
    fs: Seq<SourceFile>,
    path: Seq<char>,
    visited: Seq<Seq<char>>,
    depth: int,
) -> PreOut
    decreases 11 - depth, 1int, 0int,
{
    if depth > 10 {
        PreOut { out: Err(PreErrView::CycleOrDepth(path)), visited }
    } else if visited.contains(path) {
        PreOut { out: Ok(Seq::empty()), visited }
    } else {
        match lookup(fs, path) {
            None => PreOut { out: Err(PreErrView::Io(path)), visited },
            Some(content) => sp_expand(fs, content, dir_of(path), 0, visited.push(path), depth),
        }
    }
}

/// Scans a file's text from position `i` on: plain characters are kept,
/// each directive is replaced by the expansion of its target, resolved
/// against this file's directory.
pub open spec fn sp_expand(
    fs: Seq<SourceFile>,
    content: Seq<char>,
    dir: Seq<char>,
    i: int,
    visited: Seq<Seq<char>>,
    depth: int,
) -> PreOut
    decreases 11 - depth, 0int, content.len() - i,
{
    if 0 <= i < content.len() && 0 <= depth <= 10 {
        match match_at(content, i) {
            None => {
                let rest = sp_expand(fs, content, dir, i + 1, visited, depth);
                match rest.out {
                    Ok(t) => PreOut { out: Ok(seq![content[i]] + t), visited: rest.visited },
                    Err(m) => rest,
                }
            },
            Some(m) => {
                let sub = sp_process(fs, join_path(dir, m.0), visited, depth + 1);
                match sub.out {
                    Err(e) => PreOut { out: Err(e), visited: sub.visited },
                    Ok(inc) => {
                        let rest = sp_expand(
                            fs,
                            content,
                            dir,
                            step_pos(content.len() as int, i, m.1),
                            sub.visited,
                            depth,
                        );
                        match rest.out {
                            Ok(t) => PreOut { out: Ok(inc + t), visited: rest.visited },
                            Err(e) => rest,
                        }
                    },
                }
            },
        }
    } else {
        PreOut { out: Ok(Seq::empty()), visited }
    }
}

fn is_pat_ws_exec(c: char) -> (r: bool)
    ensures
        r == is_pat_ws(c),
{
    c == ' ' || c == '\t' || c == '\n' || c == '\r' || c == '\u{000B}' || c == '\u{000C}'
}

/// The directive match at a position, if any.
fn match_at_exec(v: &Vec<char>, i: usize) -> (r: Option<(String, usize)>)
    requires
        i < v@.len(),
    ensures
        (match r {
            Some(m) => match_at(v@, i as int) == Some((m.0@, m.1 as int)) && i < m.1 <= v@.len(),
            None => match_at(v@, i as int) is None,
        }),
{
    let n = v.len();
    if n - i < 8 {
        return None;
    }
    if !(v[i] == '#' && v[i + 1] == 'i' && v[i + 2] == 'n' && v[i + 3] == 'c' && v[i + 4] == 'l'
        && v[i + 5] == 'u' && v[i + 6] == 'd' && v[i + 7] == 'e') {
        proof {
            if v@.subrange(i as int + 1, i as int + 8) == directive_word() {
                assert(v@[i as int + 1] == directive_word()[0]);
                assert(v@[i as int + 2] == directive_word()[1]);
                assert(v@[i as int + 3] == directive_word()[2]);
                assert(v@[i as int + 4] == directive_word()[3]);
                assert(v@[i as int + 5] == directive_word()[4]);
                assert(v@[i as int + 6] == directive_word()[5]);
                assert(v@[i as int + 7] == directive_word()[6]);
            }
        }
        return None;
    }
    proof {
        assert(v@.subrange(i as int + 1, i as int + 8) =~= directive_word());
    }
    let mut w = i + 8;
    while w < n && is_pat_ws_exec(v[w])
        invariant
            i + 8 <= w <= n,
            n == v@.len(),
            ws_run_end(v@, i as int + 8) == ws_run_end(v@, w as int),
        decreases n - w,
    {
        w = w + 1;
    }
    proof {
        assert(ws_run_end(v@, i as int + 8) == w as int);
    }
    if !(w > i + 8 && w < n && v[w] == '"') {
        return None;
    }
    let mut q = w + 1;
    while q < n && v[q] != '"'
        invariant
            w + 1 <= q <= n,
            n == v@.len(),
            quote_pos(v@, w as int + 1) == quote_pos(v@, q as int),
        decreases n - q,
    {
        q = q + 1;
    }
    proof {
        assert(quote_pos(v@, w as int + 1) == q as int);
    }
    if !(q < n && q > w + 1) {
        return None;
    }
    let path = seg_string(v, w + 1, q);
    Some((path, q + 1))
}

/// The directory part of a path.
fn dir_of_exec(p: &str) -> (out: String)
    ensures
        out@ == dir_of(p@),
{
    let v = str_chars(p);
    let n = v.len();
    let mut e: usize = n;
    proof {
        assert(v@.subrange(0, n as int) =~= v@);
    }
    while e > 0 && v[e - 1] != '/'
        invariant
            e <= n,
            n == v@.len(),
            dir_of(v@) == dir_of(v@.subrange(0, e as int)),
        decreases e,
    {
        proof {
            assert(v@.subrange(0, e as int).drop_last() =~= v@.subrange(0, e as int - 1));
        }
        e = e - 1;
    }
    if e == 0 {
        proof {
            assert(dir_of(v@.subrange(0, 0)) =~= Seq::<char>::empty());
        }
        String::new()
    } else {
        proof {
            assert(v@.subrange(0, e as int)[e - 1] == v@[e as int - 1]);
            assert(v@.subrange(0, e as int).subrange(0, e as int - 1) =~= v@.subrange(
                0,
                e as int - 1,
            ));
        }
        seg_string(&v, 0, e - 1)
    }
}

/// A path joined onto a directory.
fn join_path_exec(dir: &str, rel: &str) -> (out: String)
    ensures
        out@ == join_path(dir@, rel@),
{
    let rn = rel.unicode_len();
    if rn > 0 && rel.get_char(0) == '/' {
        return String::from_str(rel);
    }
    if dir.unicode_len() == 0 {
        return String::from_str(rel);
    }
    let mut out = String::from_str(dir);
    out.append("/");
    out.append(rel);
    out
}

/// Whether a path is already among the visited ones.
fn visited_contains(visited: &Vec<String>, p: &str) -> (r: bool)
    ensures
        r == strs_view(visited@).contains(p@),
{
    let n = visited.len();
    let mut i: usize = 0;
    while i < n
        invariant
            i <= n,
            n == visited@.len(),
            forall|j: int| 0 <= j < i ==> strs_view(visited@)[j] != p@,
        decreases n - i,
    {
        if str_equal(visited[i].as_str(), p) {
            proof {
                assert(strs_view(visited@)[i as int] == p@);
            }
            return true;
        }
        i = i + 1;
    }
    proof {
        assert(!strs_view(visited@).contains(p@)) by {
            if strs_view(visited@).contains(p@) {
                let j = choose|j: int|
                    0 <= j < strs_view(visited@).len() && strs_view(visited@)[j] == p@;
            }
        }
    }
    false
}

/// The first file with the given path, by index.
fn find_file(files: &SourceFiles, p: &str) -> (r: Option<usize>)
    ensures
        (match r {
            Some(ix) => ix < files.files@.len() && lookup(files.files@, p@) == Some(
                files.files@[ix as int].text@,
            ),
            None => lookup(files.files@, p@) is None,
        }),
{
    let n = files.files.len();
    let mut i: usize = 0;
    proof {
        assert(files.files@.subrange(0, n as int) =~= files.files@);
    }
    while i < n
        invariant
            i <= n,
            n == files.files@.len(),
            lookup(files.files@, p@) == lookup(
                files.files@.subrange(i as int, files.files@.len() as int),
                p@,
            ),
        decreases n - i,
    {
        proof {
            let tail = files.files@.subrange(i as int, files.files@.len() as int);
            assert(tail[0] == files.files@[i as int]);
            assert(tail.drop_first() =~= files.files@.subrange(
                i as int + 1,
                files.files@.len() as int,
            ));
        }
        if str_equal(files.files[i].path.as_str(), p) {
            return Some(i);
        }
        i = i + 1;
    }
    proof {
        assert(files.files@.subrange(n as int, n as int) =~= Seq::<SourceFile>::empty());
    }
    None
}

/// The preprocessor.  Its visited-path tracking lives inside one `process`
/// call, so repeated calls on one value never contaminate each other.
#[derive(Debug, Clone, PartialEq, Eq)]
pub struct Preprocessor {}

impl Preprocessor {
    /// A fresh preprocessor.
    pub fn new() -> (r: Self) {
        Self {  }
    }

    /// Expands the file at `path` from the given table, splicing directive
    /// targets in place, with cycle and depth protection.
    pub fn process(&self, files: &SourceFiles, path: &str) -> (r: Result<
        String,
        PreprocessError,
    >)
        ensures
            ({
                let po = sp_process(files.files@, path@, Seq::empty(), 0);
                match r {
                    Ok(s) => po.out == Ok::<Seq<char>, PreErrView>(s@),
                    Err(e) => po.out == Err::<Seq<char>, PreErrView>(e@),
                }
            }),
    {
        let mut visited: Vec<String> = Vec::new();
        proof {
            assert(strs_view(visited@) =~= Seq::<Seq<char>>::empty());
        }
        self.process_recursive(files, path, &mut visited, 0)
    }

    /// One recursive expansion step at a given nesting depth.
    #[verifier::spinoff_prover]
    #[verifier::rlimit(100)]
    fn process_recursive(
        &self,
        files: &SourceFiles,
        path: &str,
        visited: &mut Vec<String>,
        depth: usize,
    ) -> (r: Result<String, PreprocessError>)
        requires
            depth <= 11,
        ensures
            ({
                let po = sp_process(files.files@, path@, strs_view(old(visited)@), depth as int);
                strs_view(final(visited)@) == po.visited && match r {
                    Ok(s) => po.out == Ok::<Seq<char>, PreErrView>(s@),
                    Err(e) => po.out == Err::<Seq<char>, PreErrView>(e@),
                }
            }),
        decreases 11 - depth, 1int, 0int,
    {
        if depth > 10 {
            return Err(PreprocessError::CycleOrDepth(String::from_str(path)));
        }
        if visited_contains(visited, path) {
            return Ok(String::new());
        }
        let ix = match find_file(files, path) {
            Some(ix) => ix,
            None => {
                return Err(PreprocessError::Io(String::from_str(path)));
            },
        };
        visited.push(String::from_str(path));
        proof {
            assert(strs_view(visited@) =~= strs_view(old(visited)@).push(path@));
        }
        let content = str_chars(files.files[ix].text.as_str());
        let dir = dir_of_exec(path);
        self.expand(files, &content, dir.as_str(), 0, visited, depth)
    }

    /// Scans a file's text for directives, splicing expansions in place.
    #[verifier::spinoff_prover]
    #[verifier::rlimit(100)]
    fn expand(
        &self,
        files: &SourceFiles,
        content: &Vec<char>,
        dir: &str,
        i: usize,
        visited: &mut Vec<String>,
        depth: usize,
    ) -> (r: Result<String, PreprocessError>)
        requires
            i <= content@.len(),
            depth <= 10,
        ensures
            ({
                let po = sp_expand(
                    files.files@,
                    content@,
                    dir@,
                    i as int,
                    strs_view(old(visited)@),
                    depth as int,
                );
                strs_view(final(visited)@) == po.visited && match r {
                    Ok(s) => po.out == Ok::<Seq<char>, PreErrView>(s@),
                    Err(e) => po.out == Err::<Seq<char>, PreErrView>(e@),
                }
            }),
        decreases 11 - depth, 0int, content@.len() - i,
    {
        if i >= content.len() {
            return Ok(String::new());
        }
        match match_at_exec(content, i) {
            None => {
                let c = content[i];
                let rest = match self.expand(files, content, dir, i + 1, visited, depth) {
                    Ok(s) => s,
                    Err(e) => {
                        return Err(e);
                    },
                };
                let mut out = String::new();
                out.push(c);
                out.append(rest.as_str());
                proof {
                    assert(out@ =~= seq![content@[i as int]] + rest@);
                }
                Ok(out)
            },
            Some((rel, end)) => {
                let target = join_path_exec(dir, rel.as_str());
                let inc = match self.process_recursive(files, target.as_str(), visited, depth + 1) {
                    Ok(s) => s,
                    Err(e) => {
                        return Err(e);
                    },
                };
                let rest = match self.expand(files, content, dir, end, visited, depth) {
                    Ok(s) => s,
                    Err(e) => {
                        return Err(e);
                    },
                };
                let mut out = inc;
                out.append(rest.as_str());
                Ok(out)
            },
        }
    }
}


/// Nesting beyond the fixed depth limit is fatal: at any depth past ten,
/// expansion of any path fails with the cycle-or-depth error for that path,
/// whatever the file table and the visited set hold.
pub proof fn lemma_depth_limit_fatal(
    fs: Seq<SourceFile>,
    path: Seq<char>,
    visited: Seq<Seq<char>>,
    depth: int,
)
    requires
        depth > 10,
    ensures
        sp_process(fs, path, visited, depth).out == Err::<Seq<char>, PreErrView>(
            PreErrView::CycleOrDepth(path),
        ),
{
}

/// Splicing a path already expanded within the same top-level call yields
/// the empty text, with no error and no change to the visited set.
pub proof fn lemma_revisit_is_empty(
    fs: Seq<SourceFile>,
    path: Seq<char>,
    visited: Seq<Seq<char>>,
    depth: int,
)
    requires
        depth <= 10,
        visited.contains(path),
    ensures
        sp_process(fs, path, visited, depth).out == Ok::<Seq<char>, PreErrView>(Seq::empty()),
        sp_process(fs, path, visited, depth).visited == visited,
{
}

} // verus!
