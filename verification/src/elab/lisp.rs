//! The values that the elaborator computes with.

use crate::elab::environment::AtomID;
use crate::util::FileSpan;
use vstd::prelude::*;

verus! {

/// A value.
#[derive(Debug)]
pub enum LispVal {
    /// A name.
    Atom(AtomID),
    /// A list of values.
    List(Vec<LispVal>),
    /// A list of values with a tail that is no list.
    DottedList(Vec<LispVal>, Box<LispVal>),
    /// A value with the place in a source text that it came from.
    Span(FileSpan, Box<LispVal>),
    /// A number.
    Number(i64),
    /// A truth value.
    Bool(bool),
    /// No value.
    Undef,
    /// A cell that holds a value.
    Ref(Box<LispVal>),
    /// The metavariable with a number, a sort, and whether it stands for a
    /// bound variable.
    MVar(usize, AtomID, bool),
    /// A goal: a statement that is still to be proved.
    Goal(Box<LispVal>),
}

/// The value that `v` holds behind its cells and source places.
pub open spec fn unwrapped(v: LispVal) -> LispVal
    decreases v,
{
    match v {
        LispVal::Ref(inner) => unwrapped(*inner),
        LispVal::Span(_, inner) => unwrapped(*inner),
        _ => v,
    }
}

/// The source place that `v` carries, behind its cells.
pub open spec fn spec_fspan(v: LispVal) -> Option<FileSpan>
    decreases v,
{
    match v {
        LispVal::Ref(inner) => spec_fspan(*inner),
        LispVal::Span(fsp, _) => Some(fsp),
        _ => None,
    }
}

/// `v` in a cell, unless it is a cell already.
pub open spec fn as_ref(v: LispVal) -> LispVal {
    if v is Ref {
        v
    } else {
        LispVal::Ref(Box::new(v))
    }
}

/// A fresh cell with the metavariable number `n`.
pub open spec fn mvar_ref(n: usize, sort: AtomID, bound: bool) -> LispVal {
    LispVal::Ref(Box::new(LispVal::MVar(n, sort, bound)))
}

impl LispVal {
    /// Whether the value is a cell.
    pub fn is_ref(&self) -> (r: bool)
        ensures
            r == (*self is Ref),
    {
        match self {
            LispVal::Ref(_) => true,
            _ => false,
        }
    }

    /// Whether the value is a goal, behind its cells and source places.
    pub fn is_goal(&self) -> (r: bool)
        ensures
            r == (unwrapped(*self) is Goal),
        decreases *self,
    {
        match self {
            LispVal::Ref(inner) => inner.is_goal(),
            LispVal::Span(_, inner) => inner.is_goal(),
            LispVal::Goal(_) => true,
            _ => false,
        }
    }

    /// The name that the value is, behind its cells and source places.
    pub fn as_atom(&self) -> (r: Option<AtomID>)
        ensures
            r == match unwrapped(*self) {
                LispVal::Atom(a) => Some(a),
                _ => None,
            },
        decreases *self,
    {
        match self {
            LispVal::Ref(inner) => inner.as_atom(),
            LispVal::Span(_, inner) => inner.as_atom(),
            LispVal::Atom(a) => Some(*a),
            _ => None,
        }
    }

    /// The source place that the value carries, behind its cells.
    pub fn fspan(&self) -> (r: Option<FileSpan>)
        ensures
            r == spec_fspan(*self),
        decreases *self,
    {
        match self {
            LispVal::Ref(inner) => inner.fspan(),
            LispVal::Span(fsp, _) => Some(*fsp),
            _ => None,
        }
    }
}

} // verus!
