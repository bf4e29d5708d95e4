//! Path equality by components, and the checks that edits and project
//! switches make against the active project.
use vstd::prelude::*;
use crate::text::{chars_are, chars_of, split_from, split_on, str_eq, views};
use crate::value::Node;

verus! {

/// The pieces of a path that name something: no empty pieces, no `.`.
pub open spec fn named_parts(parts: Seq<Seq<char>>) -> Seq<Seq<char>>
    decreases parts.len(),
{
    if parts.len() == 0 {
        seq![]
    } else {
        let prev = named_parts(parts.drop_last());
        let p = parts.last();
        if p.len() == 0 || p == "."@ {
            prev
        } else {
            prev.push(p)
        }
    }
}

/// The components of a Unix path: `/` for the root, `.` for a leading current
/// directory, then the names and `..`, as `Path::components` yields them.
pub open spec fn path_parts(p: Seq<char>) -> Seq<Seq<char>> {
    let head = if p.len() > 0 && p[0] == '/' {
        seq!["/"@]
    } else if p.len() > 0 && p[0] == '.' && (p.len() == 1 || p[1] == '/') {
        seq!["."@]
    } else {
        seq![]
    };
    head + named_parts(split_on(p, '/'))
}

fn parts_of(p: &str) -> (r: Vec<Vec<char>>)
    ensures
        views(r@) == path_parts(p@),
{
    let v = chars_of(p);
    let mut out: Vec<Vec<char>> = Vec::new();
    if v.len() > 0 && v[0] == '/' {
        out.push(chars_of("/"));
    } else if v.len() > 0 && v[0] == '.' && (v.len() == 1 || v[1] == '/') {
        out.push(chars_of("."));
    }
    let ghost head = views(out@);
    assert(v@.skip(0) =~= v@);
    let pieces = split_from(&v, 0, '/');
    let ghost pv = views(pieces@);
    let mut i: usize = 0;
    assert(pv.take(0) =~= Seq::<Seq<char>>::empty());
    assert(views(out@) =~= head + named_parts(pv.take(0)));
    while i < pieces.len()
        invariant
            i <= pieces.len(),
            pv == views(pieces@),
            views(out@) == head + named_parts(pv.take(i as int)),
        decreases pieces.len() - i,
    {
        assert(pv.take(i + 1).drop_last() =~= pv.take(i as int));
        assert(pv.take(i + 1).last() == pieces@[i as int]@);
        let piece = &pieces[i];
        if !(piece.len() == 0 || chars_are(piece, ".")) {
            let ghost before = views(out@);
            out.push(crate::text::slice_chars(piece, 0, piece.len()));
            assert(piece@.subrange(0, piece@.len() as int) =~= piece@);
            assert(views(out@) =~= before.push(piece@));
        }
        i = i + 1;
    }
    assert(pv.take(i as int) =~= pv);
    out
}

/// Whether two Unix paths have the same components (`Path == Path`).
#[verifier::loop_isolation(false)]
pub fn same_path(a: &str, b: &str) -> (r: bool)
    ensures
        r == (path_parts(a@) == path_parts(b@)),
{
    let pa = parts_of(a);
    let pb = parts_of(b);
    if pa.len() != pb.len() {
        assert(views(pa@).len() != views(pb@).len());
        return false;
    }
    let mut i: usize = 0;
    while i < pa.len()
        invariant
            i <= pa.len() == pb.len(),
            views(pa@) == path_parts(a@),
            views(pb@) == path_parts(b@),
            forall|k: int| 0 <= k < i ==> pa@[k]@ == pb@[k]@,
        decreases pa.len() - i,
    {
        let x = &pa[i];
        let y = &pb[i];
        if x.len() != y.len() {
            assert(views(pa@)[i as int] != views(pb@)[i as int]);
            return false;
        }
        let mut j: usize = 0;
        while j < x.len()
            invariant
                j <= x.len() == y.len(),
                forall|k: int| 0 <= k < j ==> x@[k] == y@[k],
            decreases x.len() - j,
        {
            if x[j] != y[j] {
                assert(x@ != y@);
                assert(views(pa@)[i as int] != views(pb@)[i as int]);
                return false;
            }
            j = j + 1;
        }
        assert(x@ =~= y@);
        i = i + 1;
    }
    assert(views(pa@) =~= views(pb@));
    true
}

/// Why an edit is refused before it looks at the records.
#[derive(Debug)]
pub enum ExpectError {
    /// The request lacks a string field.
    MissingString(String),
    /// No project is active.
    Inactive,
    /// The active project is not the one that the editor shows.
    Changed,
    /// The identity token of the active project cannot be read.
    Token(String),
}

impl ExpectError {
    pub fn message(&self) -> (r: String)
        ensures
            match self {
                ExpectError::MissingString(n) => r@ == "missing string "@ + n@,
                ExpectError::Inactive => r@ == "inactive"@,
                ExpectError::Changed => r@ == "active project changed; reload before saving"@,
                ExpectError::Token(e) => r@ == e@,
            },
    {
        match self {
            ExpectError::MissingString(n) => {
                let mut out: Vec<char> = Vec::new();
                crate::text::push_str(&mut out, "missing string ");
                crate::text::push_str(&mut out, n.as_str());
                crate::text::string_of(&out)
            },
            ExpectError::Inactive => String::from_str("inactive"),
            ExpectError::Changed => String::from_str("active project changed; reload before saving"),
            ExpectError::Token(e) => e.clone(),
        }
    }
}

/// The outcome of checking an edit against the active project: the request
/// names the active project's path and identity token, both nonempty.
pub open spec fn expect_spec(
    request: Node,
    active: Option<Seq<char>>,
    active_token: Result<Seq<char>, Seq<char>>,
) -> Result<(), ExpectErrorView> {
    match request.str_at("session"@) {
        None => Err(ExpectErrorView::MissingString("session"@)),
        Some(expected) => match request.str_at("token"@) {
            None => Err(ExpectErrorView::MissingString("token"@)),
            Some(token) => match active {
                None => Err(ExpectErrorView::Inactive),
                Some(path) => if expected.len() == 0 || token.len() == 0 || path_parts(path)
                    != path_parts(expected) {
                    Err(ExpectErrorView::Changed)
                } else {
                    match active_token {
                        Err(e) => Err(ExpectErrorView::Token(e)),
                        Ok(t) => if t != token {
                            Err(ExpectErrorView::Changed)
                        } else {
                            Ok(())
                        },
                    }
                },
            },
        },
    }
}

pub enum ExpectErrorView {
    MissingString(Seq<char>),
    Inactive,
    Changed,
    Token(Seq<char>),
}

impl View for ExpectError {
    type V = ExpectErrorView;

    open spec fn view(&self) -> ExpectErrorView {
        match self {
            ExpectError::MissingString(n) => ExpectErrorView::MissingString(n@),
            ExpectError::Inactive => ExpectErrorView::Inactive,
            ExpectError::Changed => ExpectErrorView::Changed,
            ExpectError::Token(e) => ExpectErrorView::Token(e@),
        }
    }
}

pub open spec fn result_view(r: Result<String, String>) -> Result<Seq<char>, Seq<char>> {
    match r {
        Ok(s) => Ok(s@),
        Err(e) => Err(e@),
    }
}

/// Checks that an edit request was made for the active project: its path (by
/// components) and its identity token, read from the project, must match.
pub fn check_expected(
    request: &Node,
    active: Option<&str>,
    active_token: Result<String, String>,
) -> (r: Result<(), ExpectError>)
    ensures
        match r {
            Ok(_) => expect_spec(
                *request,
                match active {
                    Some(a) => Some(a@),
                    None => None,
                },
                result_view(active_token),
            ) == Ok::<(), ExpectErrorView>(()),
            Err(e) => expect_spec(
                *request,
                match active {
                    Some(a) => Some(a@),
                    None => None,
                },
                result_view(active_token),
            ) == Err::<(), ExpectErrorView>(e@),
        },
{
    let expected = match request.get_str("session") {
        Some(s) => s,
        None => return Err(ExpectError::MissingString(String::from_str("session"))),
    };
    let token = match request.get_str("token") {
        Some(s) => s,
        None => return Err(ExpectError::MissingString(String::from_str("token"))),
    };
    let path = match active {
        Some(p) => p,
        None => return Err(ExpectError::Inactive),
    };
    if expected.as_str().is_empty() || token.as_str().is_empty() || !same_path(
        path,
        expected.as_str(),
    ) {
        return Err(ExpectError::Changed);
    }
    match active_token {
        Err(e) => Err(ExpectError::Token(e)),
        Ok(t) => if t != *token {
            Err(ExpectError::Changed)
        } else {
            Ok(())
        },
    }
}

/// Why the active-project pointer may not be replaced.
#[derive(Debug, PartialEq, Eq, Structural)]
pub enum PointerError {
    /// The caller expected another active project.
    ActiveChanged,
    /// Another project is active.
    AnotherActive,
}

impl PointerError {
    pub fn message(&self) -> (r: String)
        ensures
            *self == PointerError::ActiveChanged ==> r@
                == "active project changed; reload projects and try again"@,
            *self == PointerError::AnotherActive ==> r@
                == "another session is active; stop it before opening this project"@,
    {
        match self {
            PointerError::ActiveChanged => String::from_str(
                "active project changed; reload projects and try again",
            ),
            PointerError::AnotherActive => String::from_str(
                "another session is active; stop it before opening this project",
            ),
        }
    }
}

/// Whether `session` may become the active project. `current` is the
/// resolved active project (empty when none); `expected`, when given, is the
/// resolved project that the caller believes active (empty for none).
pub open spec fn pointer_spec(current: Seq<char>, expected: Option<Seq<char>>, session: Seq<char>) -> Result<
    (),
    PointerError,
> {
    match expected {
        Some(exp) => if current != exp {
            Err(PointerError::ActiveChanged)
        } else {
            Ok(())
        },
        None => if current.len() > 0 && path_parts(current) != path_parts(session) {
            Err(PointerError::AnotherActive)
        } else {
            Ok(())
        },
    }
}

/// Decides whether `session` may replace the active-project pointer.
pub fn check_pointer(current: &str, expected: Option<&str>, session: &str) -> (r: Result<
    (),
    PointerError,
>)
    ensures
        r == pointer_spec(
            current@,
            match expected {
                Some(e) => Some(e@),
                None => None,
            },
            session@,
        ),
{
    match expected {
        Some(exp) => if !str_eq(current, exp) {
            Err(PointerError::ActiveChanged)
        } else {
            Ok(())
        },
        None => if !current.is_empty() && !same_path(current, session) {
            Err(PointerError::AnotherActive)
        } else {
            Ok(())
        },
    }
}

} // verus!
