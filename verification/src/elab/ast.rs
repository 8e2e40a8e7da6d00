//! The declarations that the elaborator reads.

use crate::elab::lisp::LispVal;
use crate::util::{ElabError, Span};
use vstd::prelude::*;

verus! {

/// How a binder introduces its variable.
#[derive(Clone, Copy, Debug, PartialEq, Eq, Structural)]
pub enum LocalKind {
    /// A bound variable, written in curly brackets.
    Bound,
    /// A regular variable.
    Reg,
    /// A dummy variable.
    Dummy,
    /// A binder without a name.
    Anon,
}

impl LocalKind {
    /// Whether the variable is a bound variable: a bound or a dummy one.
    pub open spec fn spec_is_bound(self) -> bool {
        self == LocalKind::Bound || self == LocalKind::Dummy
    }

    /// Whether the variable is a bound variable: a bound or a dummy one.
    pub fn is_bound(self) -> (r: bool)
        ensures
            r == self.spec_is_bound(),
    {
        match self {
            LocalKind::Bound => true,
            LocalKind::Dummy => true,
            _ => false,
        }
    }
}

/// A sort with the variables that a value of it may depend on.
#[derive(Debug)]
pub struct DepType {
    pub sort: Span,
    pub deps: Vec<Span>,
}

/// A formula: its place in the text, and what it evaluates to.
#[derive(Debug)]
pub struct Formula {
    pub span: Span,
    pub value: Result<LispVal, ElabError>,
}

/// What a binder says of its variable.
#[derive(Debug)]
pub enum Type {
    DepType(DepType),
    Formula(Formula),
}

/// The span from the start of `sort` to the end of the last of `deps`, or
/// of `sort` where there is none.
pub open spec fn dep_type_span(sort: Span, deps: Seq<Span>) -> Span {
    Span {
        start: sort.start,
        end: if deps.len() > 0 {
            deps.last().end
        } else {
            sort.end
        },
    }
}

impl Type {
    /// The place of the type in the text.
    pub open spec fn spec_span(self) -> Span {
        match self {
            Type::DepType(d) => dep_type_span(d.sort, d.deps@),
            Type::Formula(f) => f.span,
        }
    }

    /// The place of the type in the text.
    pub fn span(&self) -> (sp: Span)
        ensures
            sp == self.spec_span(),
    {
        match self {
            Type::DepType(d) => {
                let end = if d.deps.len() > 0 {
                    d.deps[d.deps.len() - 1].end
                } else {
                    d.sort.end
                };
                Span { start: d.sort.start, end }
            },
            Type::Formula(f) => f.span,
        }
    }
}

/// A binder: its place, the place and kind of its variable, and its type.
#[derive(Debug)]
pub struct Binder {
    pub span: Span,
    pub local: (Span, LocalKind),
    pub ty: Option<Type>,
}

/// The kinds of declarations.
#[derive(Clone, Copy, Debug, PartialEq, Eq, Structural)]
pub enum DeclKind {
    Term,
    Axiom,
    Thm,
    Def,
}

/// A declaration: its kind, the place of its name, its binders, and the
/// types of its further arguments with the type of its result.
#[derive(Debug)]
pub struct Decl {
    pub k: DeclKind,
    pub id: Span,
    pub bis: Vec<Binder>,
    pub ty: Option<(Vec<Type>, Type)>,
}

} // verus!
