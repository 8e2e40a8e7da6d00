//! What the server decides on a message before and after the store is
//! asked: which kind of request or notification a method names, where a
//! read request has to look, and what a hover and a definition request
//! show.

use crate::elab::environment::{DeclKey, Declared, Environment, ObjectKind};
use crate::model::Files;
use crate::text::{spec_to_idx, to_idx, Position};
use crate::util::{FileRef, FileSpan, Span};
use crate::vfs::VFS;
use vstd::prelude::*;
use vstd::string::StringExecFns;

verus! {

/// The requests that the server knows.
#[derive(Clone, Copy, Debug, PartialEq, Eq, Structural)]
pub enum RequestType {
    Completion,
    Hover,
    Definition,
    DocumentSymbol,
}

/// The notifications that the server acts on.
#[derive(Clone, Copy, Debug, PartialEq, Eq, Structural)]
pub enum NotificationType {
    CancelRequest,
    DidOpen,
    DidChange,
    DidClose,
}

/// The request that `method` names.
pub open spec fn spec_parse_request(method: Seq<char>) -> Option<RequestType> {
    if method == "textDocument/completion"@ {
        Some(RequestType::Completion)
    } else if method == "textDocument/hover"@ {
        Some(RequestType::Hover)
    } else if method == "textDocument/definition"@ {
        Some(RequestType::Definition)
    } else if method == "textDocument/documentSymbol"@ {
        Some(RequestType::DocumentSymbol)
    } else {
        None
    }
}

/// The notification that `method` names.
pub open spec fn spec_parse_notification(method: Seq<char>) -> Option<NotificationType> {
    if method == "$/cancelRequest"@ {
        Some(NotificationType::CancelRequest)
    } else if method == "textDocument/didOpen"@ {
        Some(NotificationType::DidOpen)
    } else if method == "textDocument/didChange"@ {
        Some(NotificationType::DidChange)
    } else if method == "textDocument/didClose"@ {
        Some(NotificationType::DidClose)
    } else {
        None
    }
}

/// Whether `method` is the text `name`.
fn is_method(method: &String, name: &str) -> (r: bool)
    ensures
        r == (method@ == name@),
{
    let name = String::from_str(name);
    *method == name
}

/// The request that `method` names, if the server knows it.
pub fn parse_request(method: &str) -> (r: Option<RequestType>)
    ensures
        r == spec_parse_request(method@),
{
    let method = String::from_str(method);
    if is_method(&method, "textDocument/completion") {
        Some(RequestType::Completion)
    } else if is_method(&method, "textDocument/hover") {
        Some(RequestType::Hover)
    } else if is_method(&method, "textDocument/definition") {
        Some(RequestType::Definition)
    } else if is_method(&method, "textDocument/documentSymbol") {
        Some(RequestType::DocumentSymbol)
    } else {
        None
    }
}

/// The notification that `method` names, if the server acts on it.
pub fn parse_notification(method: &str) -> (r: Option<NotificationType>)
    ensures
        r == spec_parse_notification(method@),
{
    let method = String::from_str(method);
    if is_method(&method, "$/cancelRequest") {
        Some(NotificationType::CancelRequest)
    } else if is_method(&method, "textDocument/didOpen") {
        Some(NotificationType::DidOpen)
    } else if is_method(&method, "textDocument/didChange") {
        Some(NotificationType::DidChange)
    } else if is_method(&method, "textDocument/didClose") {
        Some(NotificationType::DidClose)
    } else {
        None
    }
}

/// Why a request failed.
#[derive(Clone, Copy, Debug, PartialEq, Eq, Structural)]
pub enum ErrorCode {
    ParseError,
    InvalidRequest,
    MethodNotFound,
    InvalidParams,
    InternalError,
}

impl ErrorCode {
    /// The number that the protocol gives the code.
    pub open spec fn spec_code(self) -> i32 {
        match self {
            ErrorCode::ParseError => (-32700i32),
            ErrorCode::InvalidRequest => (-32600i32),
            ErrorCode::MethodNotFound => (-32601i32),
            ErrorCode::InvalidParams => (-32602i32),
            ErrorCode::InternalError => (-32603i32),
        }
    }

    /// The number that the protocol gives the code.
    pub fn code(self) -> (n: i32)
        ensures
            n == self.spec_code(),
    {
        match self {
            ErrorCode::ParseError => -32700,
            ErrorCode::InvalidRequest => -32600,
            ErrorCode::MethodNotFound => -32601,
            ErrorCode::InvalidParams => -32602,
            ErrorCode::InternalError => -32603,
        }
    }
}

/// The error that answers a failed request.
#[derive(Debug)]
pub struct ResponseError {
    pub code: i32,
    pub message: String,
}

/// The error with the number of `code` and with `message`.
pub fn response_err(code: ErrorCode, message: String) -> (e: ResponseError)
    ensures
        e.code == code.spec_code(),
        e.message == message,
{
    ResponseError { code: code.code(), message }
}

/// Where a read request about a position of a file has to look.
#[derive(Clone, Copy, Debug, PartialEq, Eq, Structural)]
pub enum Located {
    /// The store does not know the file yet: it has to be loaded, with
    /// [`VFS::get_or_insert`], before the position can be looked up.
    Load,
    /// The position lies outside the current text: the request is answered
    /// with nothing.
    Nowhere,
    /// The offset of the position in the current text.
    At(usize),
}

/// `r` is where a read request about the position `pos` of `path` has to
/// look.
pub open spec fn located<A, V, W, C>(
    m: Files<A, V, W, C>,
    path: FileRef,
    pos: Position,
    r: Located,
) -> bool {
    match r {
        Located::Load => !m.contains_key(path),
        Located::Nowhere => m.contains_key(path) && spec_to_idx(m[path].text, pos) is None,
        Located::At(idx) => m.contains_key(path) && spec_to_idx(m[path].text, pos) == Some(
            idx as int,
        ),
    }
}

/// Where a read request, a hover or a definition request, about the
/// position `pos` of the file `path` has to look: at the offset of the
/// position in the current text. A file that the store does not know is
/// no error: the first request for a file is what brings it into the
/// store, so the caller is told to load it and to ask again.
pub fn locate<A, V, W, C>(vfs: &VFS<A, V, W, C>, path: FileRef, pos: Position) -> (r: Located)
    ensures
        located(vfs@, path, pos, r),
{
    match vfs.get(path) {
        None => Located::Load,
        Some(file) => match to_idx(file.source(), pos) {
            Some(idx) => Located::At(idx),
            None => Located::Nowhere,
        },
    }
}

/// The text that a hover shows for one item found at a position: a sort, a
/// theorem and a variable show their text at the span that they were found
/// at, a term at the span that it carries. A name and an import show
/// nothing, and so does an item without a text.
pub open spec fn hover_text(item: (Span, ObjectKind, Option<String>)) -> Option<(Span, String)> {
    match (item.1, item.2) {
        (ObjectKind::Sort(_), Some(t)) => Some((item.0, t)),
        (ObjectKind::Term(_, at), Some(t)) => Some((at, t)),
        (ObjectKind::Thm(_), Some(t)) => Some((item.0, t)),
        (ObjectKind::Var(_), Some(t)) => Some((item.0, t)),
        _ => None,
    }
}

/// The texts that a hover shows for the items `items`, in order.
pub open spec fn spec_hover_texts(items: Seq<(Span, ObjectKind, Option<String>)>) -> Seq<
    (Span, String),
>
    decreases items.len(),
{
    if items.len() == 0 {
        Seq::empty()
    } else {
        match hover_text(items.last()) {
            Some(shown) => spec_hover_texts(items.drop_last()).push(shown),
            None => spec_hover_texts(items.drop_last()),
        }
    }
}

/// The texts that a hover shows for what was found at a position: each
/// item with the span that it was found at, what it refers to, and its
/// text where it has one. Sorts, terms, theorems and variables are shown;
/// names and imports are not.
pub fn hover_texts(items: &Vec<(Span, ObjectKind, Option<String>)>) -> (found: Vec<(Span, String)>)
    ensures
        found@ == spec_hover_texts(items@),
{
    let mut found: Vec<(Span, String)> = Vec::new();
    let mut i: usize = 0;
    assert(items@.take(0) =~= Seq::<(Span, ObjectKind, Option<String>)>::empty());
    while i < items.len()
        invariant
            i <= items.len(),
            found@ == spec_hover_texts(items@.take(i as int)),
        decreases items.len() - i,
    {
        proof {
            assert(items@.take(i + 1).drop_last() =~= items@.take(i as int));
            assert(items@.take(i + 1).last() == items@[i as int]);
        }
        let sp = items[i].0;
        let k = items[i].1;
        match &items[i].2 {
            Some(t) => match k {
                ObjectKind::Sort(_) => {
                    found.push((sp, t.clone()));
                },
                ObjectKind::Term(_, at) => {
                    found.push((at, t.clone()));
                },
                ObjectKind::Thm(_) => {
                    found.push((sp, t.clone()));
                },
                ObjectKind::Var(_) => {
                    found.push((sp, t.clone()));
                },
                ObjectKind::Global(_) => {},
                ObjectKind::Import(_) => {},
            },
            None => {},
        }
        i = i + 1;
    }
    assert(items@.take(i as int) =~= items@);
    found
}

/// What a hover shows: the span that it is about, and its texts.
#[derive(Debug)]
pub struct Hover {
    pub range: Span,
    pub contents: Vec<String>,
}

/// The texts of `found`, in order.
pub open spec fn texts(found: Seq<(Span, String)>) -> Seq<String> {
    found.map_values(|f: (Span, String)| f.1)
}

/// The hover for what was found at a position, each item with the span that
/// it was found at: nothing where nothing was found, else the span of the
/// first item with the texts of all items, in order.
pub fn hover(found: &Vec<(Span, String)>) -> (r: Option<Hover>)
    ensures
        match r {
            None => found@.len() == 0,
            Some(h) => found@.len() > 0 && h.range == found@[0].0 && h.contents@ == texts(found@),
        },
{
    if found.len() == 0 {
        return None;
    }
    let mut contents: Vec<String> = Vec::new();
    let mut i: usize = 0;
    assert(found@.take(0) =~= Seq::<(Span, String)>::empty());
    assert(texts(found@.take(0)) =~= Seq::<String>::empty());
    while i < found.len()
        invariant
            i <= found.len(),
            contents@ == texts(found@.take(i as int)),
        decreases found.len() - i,
    {
        contents.push(found[i].1.clone());
        proof {
            assert(found@.take(i + 1) =~= found@.take(i as int).push(found@[i as int]));
            assert(texts(found@.take(i + 1)) =~= texts(found@.take(i as int)).push(
                found@[i as int].1,
            ));
        }
        i = i + 1;
    }
    assert(found@.take(i as int) =~= found@);
    Some(Hover { range: found[0].0, contents })
}

/// A place that a definition request answers with: the span that was asked
/// about, the place of the name that it refers to, and the span of the
/// whole declaration of that name.
#[derive(Clone, Copy, Debug, PartialEq, Eq, Structural)]
pub struct Target {
    pub origin: Span,
    pub span: FileSpan,
    pub full: Span,
}

/// The target at `origin` for something declared at `d`.
pub open spec fn target(origin: Span, d: Declared) -> Target {
    Target { origin, span: d.span, full: d.full }
}

/// The targets for the declaration `k`.
pub open spec fn decl_targets(env: Environment, origin: Span, k: Option<DeclKey>) -> Seq<Target> {
    match k {
        Some(DeclKey::Term(t)) => seq![target(origin, env.terms@[t as int])],
        Some(DeclKey::Thm(t)) => seq![target(origin, env.thms@[t as int])],
        None => Seq::empty(),
    }
}

/// The targets for the sort `s`.
pub open spec fn sort_targets(env: Environment, origin: Span, s: Option<usize>) -> Seq<Target> {
    match s {
        Some(s) => seq![target(origin, env.sorts@[s as int])],
        None => Seq::empty(),
    }
}

/// The targets for the definition at `d`.
pub open spec fn lisp_targets(origin: Span, d: Option<Declared>) -> Seq<Target> {
    match d {
        Some(d) => seq![target(origin, d)],
        None => Seq::empty(),
    }
}

/// The places where what the span `origin` refers to is defined: for a
/// sort, a term or a theorem its declaration; for a variable none; for a
/// name its term or theorem, then its sort, then its definition, as far
/// as it has them; for an import the start of the imported file.
pub open spec fn targets_of(env: Environment, origin: Span, k: ObjectKind) -> Seq<Target> {
    match k {
        ObjectKind::Sort(s) => seq![target(origin, env.sorts@[s as int])],
        ObjectKind::Term(t, _) => seq![target(origin, env.terms@[t as int])],
        ObjectKind::Thm(t) => seq![target(origin, env.thms@[t as int])],
        ObjectKind::Var(_) => Seq::empty(),
        ObjectKind::Global(a) => {
            let ad = env.data@[a as int];
            decl_targets(env, origin, ad.decl) + sort_targets(env, origin, ad.sort) + lisp_targets(
                origin,
                ad.lisp,
            )
        },
        ObjectKind::Import(file) => seq![
            Target {
                origin,
                span: FileSpan { file, span: Span { start: 0, end: 0 } },
                full: Span { start: 0, end: 0 },
            },
        ],
    }
}

/// The targets of everything in `found`, in order.
pub open spec fn all_targets(env: Environment, found: Seq<(Span, ObjectKind)>) -> Seq<Target>
    decreases found.len(),
{
    if found.len() == 0 {
        Seq::empty()
    } else {
        all_targets(env, found.drop_last()) + targets_of(env, found.last().0, found.last().1)
    }
}

/// The places that a definition request is answered with, for what was
/// found at its position, each item with the span that it was found at.
pub fn definition(env: &Environment, found: &Vec<(Span, ObjectKind)>) -> (res: Vec<Target>)
    requires
        env.wf(),
        forall|i: int| 0 <= i < found@.len() ==> env.has((#[trigger] found@[i]).1),
    ensures
        res@ == all_targets(*env, found@),
{
    let mut res: Vec<Target> = Vec::new();
    let mut i: usize = 0;
    assert(found@.take(0) =~= Seq::<(Span, ObjectKind)>::empty());
    while i < found.len()
        invariant
            i <= found.len(),
            env.wf(),
            forall|i: int| 0 <= i < found@.len() ==> env.has((#[trigger] found@[i]).1),
            res@ == all_targets(*env, found@.take(i as int)),
        decreases found.len() - i,
    {
        let (sp, k) = found[i];
        let ghost before = res@;
        proof {
            assert(env.has(found@[i as int].1));
            assert(found@.take(i + 1).drop_last() =~= found@.take(i as int));
            assert(found@.take(i + 1).last() == found@[i as int]);
        }
        match k {
            ObjectKind::Sort(s) => {
                let d = env.sorts[s];
                res.push(Target { origin: sp, span: d.span, full: d.full });
            },
            ObjectKind::Term(t, _) => {
                let d = env.terms[t];
                res.push(Target { origin: sp, span: d.span, full: d.full });
            },
            ObjectKind::Thm(t) => {
                let d = env.thms[t];
                res.push(Target { origin: sp, span: d.span, full: d.full });
            },
            ObjectKind::Var(_) => {},
            ObjectKind::Global(a) => {
                let ad = env.data[a];
                assert(env.data@[a as int] == ad);
                match ad.decl {
                    Some(DeclKey::Term(t)) => {
                        let d = env.terms[t];
                        res.push(Target { origin: sp, span: d.span, full: d.full });
                    },
                    Some(DeclKey::Thm(t)) => {
                        let d = env.thms[t];
                        res.push(Target { origin: sp, span: d.span, full: d.full });
                    },
                    None => {},
                }
                match ad.sort {
                    Some(s) => {
                        let d = env.sorts[s];
                        res.push(Target { origin: sp, span: d.span, full: d.full });
                    },
                    None => {},
                }
                match ad.lisp {
                    Some(d) => {
                        res.push(Target { origin: sp, span: d.span, full: d.full });
                    },
                    None => {},
                }
            },
            ObjectKind::Import(file) => {
                res.push(
                    Target {
                        origin: sp,
                        span: FileSpan { file, span: Span { start: 0, end: 0 } },
                        full: Span { start: 0, end: 0 },
                    },
                );
            },
        }
        assert(res@ =~= before + targets_of(*env, sp, k));
        i = i + 1;
    }
    assert(found@.take(i as int) =~= found@);
    res
}

} // verus!
