//! Which project is active, how project and session folders are named, and
//! the list of known projects.
use vstd::prelude::*;
use crate::text::{chars_of, is_whitespace, str_eq, string_of, trim, trim_chars};
use crate::value::Node;

verus! {

pub open spec fn opt_view(o: Option<String>) -> Option<Seq<char>> {
    match o {
        Some(s) => Some(s@),
        None => None,
    }
}

/// An identity token read from `.data/id` that names worker `w`.
pub open spec fn token_matches(token: Option<Seq<char>>, w: Seq<char>) -> bool {
    match token {
        Some(t) => trim(t) == w,
        None => false,
    }
}

/// The project a process works on. Without a pinned path it is the active
/// pointer. A pinned path stands when no worker id is set or when its token
/// names the worker; otherwise the pointer stands if its token names the
/// worker, since the project may have been relocated.
pub open spec fn resolve_spec(
    pinned: Option<Seq<char>>,
    worker_id: Option<Seq<char>>,
    pointer: Option<Seq<char>>,
    pinned_token: Option<Seq<char>>,
    pointer_token: Option<Seq<char>>,
) -> Option<Seq<char>> {
    match pinned {
        None => pointer,
        Some(path) => match worker_id {
            Some(w) => if w.len() == 0 {
                Some(path)
            } else if token_matches(pinned_token, w) {
                Some(path)
            } else if pointer is Some && token_matches(pointer_token, w) {
                pointer
            } else {
                None
            },
            None => Some(path),
        },
    }
}

fn token_is(token: &Option<String>, w: &str) -> (r: bool)
    ensures
        r == token_matches(opt_view(*token), w@),
{
    match token {
        Some(t) => {
            let tt = trim_chars(&chars_of(t.as_str()));
            let s = string_of(&tt);
            str_eq(s.as_str(), w)
        },
        None => false,
    }
}

/// Resolves the project of this process from the pinned path and worker id
/// of its environment, the active pointer, and the identity tokens read from
/// the pinned and pointed-to projects.
pub fn resolve_session(
    pinned: Option<String>,
    worker_id: Option<String>,
    pointer: Option<String>,
    pinned_token: Option<String>,
    pointer_token: Option<String>,
) -> (r: Option<String>)
    ensures
        opt_view(r) == resolve_spec(
            opt_view(pinned),
            opt_view(worker_id),
            opt_view(pointer),
            opt_view(pinned_token),
            opt_view(pointer_token),
        ),
{
    let path = match pinned {
        None => return pointer,
        Some(p) => p,
    };
    let w = match worker_id {
        None => return Some(path),
        Some(w) => w,
    };
    if w.as_str().is_empty() {
        return Some(path);
    }
    if token_is(&pinned_token, w.as_str()) {
        return Some(path);
    }
    match pointer {
        Some(p) => if token_is(&pointer_token, w.as_str()) {
            Some(p)
        } else {
            None
        },
        None => None,
    }
}

/// A name for a new project folder: one nonempty path component without
/// surrounding whitespace.
pub open spec fn valid_name_spec(n: Seq<char>) -> bool {
    &&& n.len() > 0
    &&& trim(n) == n
    &&& n != "."@
    &&& n != ".."@
    &&& forall|i: int| 0 <= i < n.len() ==> #[trigger] n[i] != '/' && n[i] != '\\' && n[i] != '\0'
}

/// Whether `n` may name a new project folder.
#[verifier::loop_isolation(false)]
pub fn valid_project_name(n: &str) -> (r: bool)
    ensures
        r == valid_name_spec(n@),
{
    let v = chars_of(n);
    if v.len() == 0 {
        return false;
    }
    let t = trim_chars(&v);
    if t.len() != v.len() {
        return false;
    }
    proof {
        lemma_trim_len(v@);
    }
    if crate::text::chars_are(&v, ".") || crate::text::chars_are(&v, "..") {
        return false;
    }
    let mut i: usize = 0;
    while i < v.len()
        invariant
            i <= v.len(),
            forall|k: int| 0 <= k < i ==> #[trigger] v@[k] != '/' && v@[k] != '\\' && v@[k] != '\0',
        decreases v.len() - i,
    {
        if v[i] == '/' || v[i] == '\\' || v[i] == '\0' {
            return false;
        }
        i = i + 1;
    }
    proof {
        lemma_trim_len(v@);
    }
    true
}

/// Trimming never lengthens, and keeps a string exactly when the length stays.
proof fn lemma_trim_len(s: Seq<char>)
    ensures
        trim(s).len() <= s.len(),
        trim(s).len() == s.len() ==> trim(s) == s,
{
    lemma_trim_start_len(s);
    lemma_trim_end_len(crate::text::trim_start(s));
}

proof fn lemma_trim_start_len(s: Seq<char>)
    ensures
        crate::text::trim_start(s).len() <= s.len(),
        crate::text::trim_start(s).len() == s.len() ==> crate::text::trim_start(s) == s,
    decreases s.len(),
{
    if s.len() > 0 && crate::text::is_ws(s[0]) {
        lemma_trim_start_len(s.drop_first());
    }
}

proof fn lemma_trim_end_len(s: Seq<char>)
    ensures
        crate::text::trim_end(s).len() <= s.len(),
        crate::text::trim_end(s).len() == s.len() ==> crate::text::trim_end(s) == s,
    decreases s.len(),
{
    if s.len() > 0 && crate::text::is_ws(s.last()) {
        lemma_trim_end_len(s.drop_last());
    }
}

/// A character kept as it is in a session name.
pub open spec fn name_char_ok(c: char) -> bool {
    ('a' <= c <= 'z') || ('A' <= c <= 'Z') || ('0' <= c <= '9') || c == '.' || c == '_' || c
        == '-'
}

/// A session name with every run of other characters replaced by one `-`,
/// and whether it ends in such a replacement.
pub open spec fn dash_runs(s: Seq<char>) -> (Seq<char>, bool)
    decreases s.len(),
{
    if s.len() == 0 {
        (seq![], false)
    } else {
        let (o, d) = dash_runs(s.drop_last());
        let c = s.last();
        if name_char_ok(c) {
            (o.push(c), false)
        } else if !d {
            (o.push('-'), true)
        } else {
            (o, d)
        }
    }
}

pub open spec fn is_dash_or_dot(c: char) -> bool {
    c == '-' || c == '.'
}

pub open spec fn strip_start(s: Seq<char>) -> Seq<char>
    decreases s.len(),
{
    if s.len() > 0 && is_dash_or_dot(s[0]) {
        strip_start(s.drop_first())
    } else {
        s
    }
}

pub open spec fn strip_end(s: Seq<char>) -> Seq<char>
    decreases s.len(),
{
    if s.len() > 0 && is_dash_or_dot(s.last()) {
        strip_end(s.drop_last())
    } else {
        s
    }
}

/// The folder suffix that a session name gives, if any character is usable.
pub open spec fn clean_name_spec(n: Seq<char>) -> Option<Seq<char>> {
    let out = strip_end(strip_start(dash_runs(n).0));
    if out.len() == 0 {
        None
    } else {
        Some(out)
    }
}

/// Why a session name cannot be used.
#[derive(Debug, PartialEq, Eq, Structural)]
pub enum NameError {
    NoUsableCharacters,
}

impl NameError {
    pub fn message(&self) -> (r: String)
        ensures
            r@ == "session name contains no usable characters"@,
    {
        String::from_str("session name contains no usable characters")
    }
}

/// Turns a session name into a folder suffix: letters, digits, `.`, `_` and
/// `-` stay; every run of other characters becomes one `-`; leading and
/// trailing `-` and `.` go.
pub fn clean_session_name(name: &str) -> (r: Result<String, NameError>)
    ensures
        match r {
            Ok(s) => clean_name_spec(name@) == Some(s@),
            Err(_) => clean_name_spec(name@) is None,
        },
{
    let v = chars_of(name);
    let mut out: Vec<char> = Vec::new();
    let mut dash = false;
    let mut i: usize = 0;
    assert(v@.take(0) =~= Seq::<char>::empty());
    while i < v.len()
        invariant
            i <= v.len(),
            (out@, dash) == dash_runs(v@.take(i as int)),
        decreases v.len() - i,
    {
        assert(v@.take(i + 1).drop_last() =~= v@.take(i as int));
        let c = v[i];
        if ('a' <= c && c <= 'z') || ('A' <= c && c <= 'Z') || ('0' <= c && c <= '9') || c == '.'
            || c == '_' || c == '-' {
            out.push(c);
            dash = false;
        } else if !dash {
            out.push('-');
            dash = true;
        }
        i = i + 1;
    }
    assert(v@.take(i as int) =~= v@);
    let mut lo: usize = 0;
    assert(out@.skip(0) =~= out@);
    while lo < out.len() && (out[lo] == '-' || out[lo] == '.')
        invariant
            lo <= out.len(),
            strip_start(out@) == strip_start(out@.skip(lo as int)),
        decreases out.len() - lo,
    {
        assert(out@.skip(lo as int).drop_first() =~= out@.skip(lo + 1));
        lo = lo + 1;
    }
    let ghost rest = out@.skip(lo as int);
    let mut hi: usize = out.len();
    assert(rest.take(rest.len() as int) =~= rest);
    while hi > lo && (out[hi - 1] == '-' || out[hi - 1] == '.')
        invariant
            lo <= hi <= out.len(),
            rest == out@.skip(lo as int),
            strip_end(rest) == strip_end(rest.take(hi - lo)),
        decreases hi,
    {
        assert(rest.take(hi - lo).drop_last() =~= rest.take(hi - 1 - lo));
        hi = hi - 1;
    }
    proof {
        if hi > lo {
            assert(rest[hi - lo - 1] == out@[hi - 1]);
        }
        assert(rest.take(hi - lo) =~= out@.subrange(lo as int, hi as int));
    }
    if hi == lo {
        return Err(NameError::NoUsableCharacters);
    }
    let r = crate::text::slice_chars(&out, lo, hi);
    Ok(string_of(&r))
}

/// Text of the active-project pointer file without its line ends.
pub open spec fn strip_line_end(s: Seq<char>) -> Seq<char>
    decreases s.len(),
{
    if s.len() > 0 && (s.last() == '\n' || s.last() == '\r') {
        strip_line_end(s.drop_last())
    } else {
        s
    }
}

/// The text without the `\n` and `\r` at its end.
pub fn trim_line_end(text: &str) -> (r: String)
    ensures
        r@ == strip_line_end(text@),
{
    let v = chars_of(text);
    let mut hi = v.len();
    assert(v@.take(hi as int) =~= v@);
    while hi > 0 && (v[hi - 1] == '\n' || v[hi - 1] == '\r')
        invariant
            hi <= v.len(),
            strip_line_end(v@) == strip_line_end(v@.take(hi as int)),
        decreases hi,
    {
        assert(v@.take(hi as int).drop_last() =~= v@.take(hi - 1));
        hi = hi - 1;
    }
    let r = crate::text::slice_chars(&v, 0, hi);
    assert(r@ =~= v@.take(hi as int));
    string_of(&r)
}

/// The active project named by the pointer file, unless the file is blank.
pub fn pointer_from_text(text: &str) -> (r: Option<String>)
    ensures
        match r {
            Some(p) => p@ == strip_line_end(text@) && p@.len() > 0,
            None => strip_line_end(text@).len() == 0,
        },
{
    let p = trim_line_end(text);
    if p.as_str().is_empty() {
        None
    } else {
        Some(p)
    }
}

/// Why the list of known projects cannot be read.
#[derive(Debug, PartialEq, Eq, Structural)]
pub enum RegistryError {
    NotAbsolutePaths,
}

impl RegistryError {
    pub fn message(&self) -> (r: String)
        ensures
            r@ == "projects.json must contain an array of absolute project paths"@,
    {
        String::from_str("projects.json must contain an array of absolute project paths")
    }
}

/// The project list holds only absolute paths.
pub open spec fn registry_ok(items: Seq<Node>) -> bool {
    forall|i: int|
        0 <= i < items.len() ==> match #[trigger] items[i] {
            Node::Str(s) => s@.len() > 0 && s@[0] == '/',
            _ => false,
        }
}

/// The paths of `projects.json`, which must be an array of absolute paths.
#[verifier::loop_isolation(false)]
pub fn registry_paths(doc: &Node) -> (r: Result<Vec<String>, RegistryError>)
    ensures
        match r {
            Ok(v) => match *doc {
                Node::Array(items) => registry_ok(items@) && v@.len() == items@.len() && forall|
                    i: int,
                | 0 <= i < v@.len() ==> items@[i] == Node::Str(#[trigger] v@[i]),
                _ => false,
            },
            Err(_) => match *doc {
                Node::Array(items) => !registry_ok(items@),
                _ => true,
            },
        },
{
    match doc {
        Node::Array(items) => {
            let mut out: Vec<String> = Vec::new();
            let mut i: usize = 0;
            while i < items.len()
                invariant
                    i <= items.len(),
                    out@.len() == i,
                    registry_ok(items@.take(i as int)),
                    forall|k: int| 0 <= k < i ==> items@[k] == Node::Str(#[trigger] out@[k]),
                decreases items.len() - i,
            {
                match &items[i] {
                    Node::Str(s) => {
                        let c = chars_of(s.as_str());
                        if c.len() == 0 || c[0] != '/' {
                            assert(items@.take(i + 1)[i as int] == items@[i as int]);
                            assert(!registry_ok(items@));
                            return Err(RegistryError::NotAbsolutePaths);
                        }
                        out.push(s.clone());
                    },
                    _ => {
                        assert(!registry_ok(items@));
                        return Err(RegistryError::NotAbsolutePaths);
                    },
                }
                assert forall|k: int| 0 <= k < i + 1 implies match #[trigger] items@.take(
                    i + 1,
                )[k] {
                    Node::Str(s) => s@.len() > 0 && s@[0] == '/',
                    _ => false,
                } by {
                    if k < i {
                        assert(items@.take(i + 1)[k] == items@.take(i as int)[k]);
                    }
                }
                i = i + 1;
            }
            assert(items@.take(i as int) =~= items@);
            Ok(out)
        },
        _ => Err(RegistryError::NotAbsolutePaths),
    }
}

/// The paths other than `s`, in order.
pub open spec fn without_path(v: Seq<String>, s: Seq<char>) -> Seq<Seq<char>>
    decreases v.len(),
{
    if v.len() == 0 {
        seq![]
    } else if v.last()@ == s {
        without_path(v.drop_last(), s)
    } else {
        without_path(v.drop_last(), s).push(v.last()@)
    }
}

pub open spec fn path_views(v: Seq<String>) -> Seq<Seq<char>> {
    v.map_values(|p: String| p@)
}

/// Puts `s` first in the list of known projects, once.
pub fn remember_path(paths: &Vec<String>, s: &String) -> (r: Vec<String>)
    ensures
        path_views(r@) == seq![s@] + without_path(paths@, s@),
{
    let mut out: Vec<String> = Vec::new();
    out.push(s.clone());
    let mut i: usize = 0;
    assert(paths@.take(0) =~= Seq::<String>::empty());
    assert(path_views(out@) =~= seq![s@] + without_path(paths@.take(0), s@));
    while i < paths.len()
        invariant
            i <= paths.len(),
            path_views(out@) == seq![s@] + without_path(paths@.take(i as int), s@),
        decreases paths.len() - i,
    {
        assert(paths@.take(i + 1).drop_last() =~= paths@.take(i as int));
        if paths[i] != *s {
            let ghost before = path_views(out@);
            out.push(paths[i].clone());
            assert(path_views(out@) =~= before.push(paths@[i as int]@));
        }
        i = i + 1;
    }
    assert(paths@.take(i as int) =~= paths@);
    out
}

} // verus!

verus! {

/// The paths in order, each at its first place only.
pub open spec fn first_occurrences(v: Seq<Seq<char>>) -> Seq<Seq<char>>
    decreases v.len(),
{
    if v.len() == 0 {
        seq![]
    } else if first_occurrences(v.drop_last()).contains(v.last()) {
        first_occurrences(v.drop_last())
    } else {
        first_occurrences(v.drop_last()).push(v.last())
    }
}

fn contains_path(v: &Vec<String>, s: &String) -> (r: bool)
    ensures
        r == path_views(v@).contains(s@),
{
    let mut i: usize = 0;
    while i < v.len()
        invariant
            i <= v.len(),
            forall|k: int| 0 <= k < i ==> path_views(v@)[k] != s@,
        decreases v.len() - i,
    {
        if v[i] == *s {
            assert(path_views(v@)[i as int] == s@);
            return true;
        }
        i = i + 1;
    }
    false
}

/// The known projects without repeats, each where it first appears.
pub fn unique_paths(paths: &Vec<String>) -> (r: Vec<String>)
    ensures
        path_views(r@) == first_occurrences(path_views(paths@)),
{
    let ghost pv = path_views(paths@);
    let mut out: Vec<String> = Vec::new();
    let mut i: usize = 0;
    assert(pv.take(0) =~= Seq::<Seq<char>>::empty());
    assert(path_views(out@) =~= Seq::<Seq<char>>::empty());
    while i < paths.len()
        invariant
            i <= paths.len(),
            pv == path_views(paths@),
            path_views(out@) == first_occurrences(pv.take(i as int)),
        decreases paths.len() - i,
    {
        assert(pv.take(i + 1).drop_last() =~= pv.take(i as int));
        assert(pv.take(i + 1).last() == paths@[i as int]@);
        if !contains_path(&out, &paths[i]) {
            let ghost before = path_views(out@);
            out.push(paths[i].clone());
            assert(path_views(out@) =~= before.push(paths@[i as int]@));
        }
        i = i + 1;
    }
    assert(pv.take(i as int) =~= pv);
    out
}

} // verus!

verus! {

/// The identity file of a project holds only whitespace.
#[derive(Debug, PartialEq, Eq, Structural)]
pub enum TokenError {
    Missing,
}

impl TokenError {
    pub fn message(&self) -> (r: String)
        ensures
            r@ == "session has no identity token"@,
    {
        String::from_str("session has no identity token")
    }
}

/// The identity token in the text of a project's `.data/id`: the text
/// trimmed, which must not be empty.
pub fn identity_token(text: &str) -> (r: Result<String, TokenError>)
    ensures
        match r {
            Ok(t) => t@ == trim(text@) && t@.len() > 0,
            Err(_) => trim(text@).len() == 0,
        },
{
    let t = string_of(&trim_chars(&chars_of(text)));
    if t.as_str().is_empty() {
        Err(TokenError::Missing)
    } else {
        Ok(t)
    }
}

} // verus!
