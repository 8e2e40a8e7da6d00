//! The elaborator's local bookkeeping: the values it computes with, the
//! declarations it reads, the table of names, and the context of the
//! variables of one declaration.

pub mod ast;
pub mod environment;
pub mod lisp;
pub mod local_context;
