//! The context of one declaration: what is known of the sort of each
//! variable, the order of the variables, the metavariables and the goals.

use crate::elab::ast::{Binder, Decl, LocalKind, Type};
use crate::elab::environment::{atom_id, interned, AtomID, AtomTable};
use crate::elab::lisp::{as_ref, mvar_ref, spec_fspan, unwrapped, LispVal};
use crate::util::{reversed, ElabError, ErrorLevel, ErrorView, FileRef, Span};
use vstd::string::StringExecFns;
use std::collections::HashMap;
use vstd::prelude::*;

verus! {

/// What is known of the sort of a variable.
#[derive(Debug)]
pub enum InferSort {
    /// A bound variable of a known sort.
    KnownBound { dummy: bool, sort: AtomID },
    /// A regular variable of a known sort, with the variables that it
    /// depends on.
    KnownReg { sort: AtomID, deps: Vec<AtomID> },
    /// A variable whose sort is still open, with the sorts that were tried.
    Unknown { must_bound: bool, sorts: HashMap<AtomID, LispVal> },
}

/// What an [`InferSort`] stands for.
pub enum Sort {
    KnownBound { dummy: bool, sort: AtomID },
    KnownReg { sort: AtomID, deps: Seq<AtomID> },
    Unknown { must_bound: bool, sorts: Map<AtomID, LispVal> },
}

impl View for InferSort {
    type V = Sort;

    open spec fn view(&self) -> Sort {
        match *self {
            InferSort::KnownBound { dummy, sort } => Sort::KnownBound { dummy, sort },
            InferSort::KnownReg { sort, deps } => Sort::KnownReg { sort, deps: deps@ },
            InferSort::Unknown { must_bound, sorts } => Sort::Unknown { must_bound, sorts: sorts@ },
        }
    }
}

/// The sort of a variable of which nothing is known.
pub open spec fn unknown_sort() -> Sort {
    Sort::Unknown { must_bound: false, sorts: Map::empty() }
}

impl Default for InferSort {
    fn default() -> (r: InferSort)
        ensures
            r@ == unknown_sort(),
    {
        InferSort::Unknown { must_bound: false, sorts: HashMap::new() }
    }
}

/// The context of one declaration.
#[derive(Debug)]
pub struct LocalContext {
    /// What is known of each named variable.
    pub vars: HashMap<AtomID, InferSort>,
    /// The variables in the order of their binders. What is known of a
    /// variable stands here only for one without a name.
    pub var_order: Vec<(Option<AtomID>, Option<InferSort>)>,
    /// The metavariables, each at the index that is its number.
    pub mvars: Vec<LispVal>,
    /// The goals.
    pub goals: Vec<LispVal>,
}

/// What a variable of the order stands for.
pub open spec fn slot_view(v: (Option<AtomID>, Option<InferSort>)) -> (Option<AtomID>, Option<Sort>) {
    (
        v.0,
        match v.1 {
            Some(s) => Some(s@),
            None => None,
        },
    )
}

/// What a [`LocalContext`] stands for.
pub struct Locals {
    pub vars: Map<AtomID, Sort>,
    pub var_order: Seq<(Option<AtomID>, Option<Sort>)>,
    pub mvars: Seq<LispVal>,
    pub goals: Seq<LispVal>,
}

impl View for LocalContext {
    type V = Locals;

    open spec fn view(&self) -> Locals {
        Locals {
            vars: Map::new(|x: AtomID| self.vars@.contains_key(x), |x: AtomID| self.vars@[x]@),
            var_order: self.var_order@.map_values(
                |v: (Option<AtomID>, Option<InferSort>)| slot_view(v),
            ),
            mvars: self.mvars@,
            goals: self.goals@,
        }
    }
}

/// The context without variables, metavariables and goals.
pub open spec fn no_locals() -> Locals {
    Locals { vars: Map::empty(), var_order: Seq::empty(), mvars: Seq::empty(), goals: Seq::empty() }
}

/// The goals among `gs`, in order, each in a cell.
pub open spec fn goals_of(gs: Seq<LispVal>) -> Seq<LispVal>
    decreases gs.len(),
{
    if gs.len() == 0 {
        Seq::empty()
    } else if unwrapped(gs.last()) is Goal {
        goals_of(gs.drop_last()).push(as_ref(gs.last()))
    } else {
        goals_of(gs.drop_last())
    }
}

impl Default for LocalContext {
    fn default() -> (lc: LocalContext)
        ensures
            lc@ == no_locals(),
    {
        let lc = LocalContext {
            vars: HashMap::new(),
            var_order: Vec::new(),
            mvars: Vec::new(),
            goals: Vec::new(),
        };
        assert(lc@.vars =~= Map::empty());
        assert(lc@.var_order =~= Seq::empty());
        lc
    }
}

impl LocalContext {
    /// The context without variables, metavariables and goals.
    pub fn new() -> (lc: LocalContext)
        ensures
            lc@ == no_locals(),
    {
        Default::default()
    }

    /// Forgets the metavariables and the goals.
    pub fn clear(&mut self)
        ensures
            final(self)@ == (Locals { mvars: Seq::empty(), goals: Seq::empty(), ..old(self)@ }),
    {
        self.mvars.clear();
        self.goals.clear();
    }

    /// Makes the goals among `gs` the goals of the context, in order, each
    /// in a cell.
    pub fn set_goals(&mut self, gs: Vec<LispVal>)
        ensures
            final(self)@ == (Locals { goals: goals_of(gs@), ..old(self)@ }),
    {
        let ghost items = gs@;
        let n = gs.len();
        self.goals.clear();
        let mut rest = reversed(gs);
        assert(items.take(0) =~= Seq::<LispVal>::empty());
        while rest.len() > 0
            invariant
                rest@.len() <= items.len(),
                n == items.len(),
                forall|j: int| 0 <= j < rest@.len() ==> rest@[j] == items[items.len() - 1 - j],
                self.vars == old(self).vars,
                self.var_order == old(self).var_order,
                self.mvars == old(self).mvars,
                self.goals@ == goals_of(items.take(items.len() - rest@.len())),
            decreases rest.len(),
        {
            let ghost k = items.len() - rest@.len();
            let g = rest.pop().unwrap();
            proof {
                assert(g == items[k]);
                assert(items.take(k + 1).drop_last() =~= items.take(k));
                assert(items.take(k + 1).last() == g);
            }
            if g.is_goal() {
                if g.is_ref() {
                    self.goals.push(g);
                } else {
                    self.goals.push(LispVal::Ref(Box::new(g)));
                }
            }
        }
        assert(items.take(items.len() as int) =~= items);
    }

    /// Makes a metavariable of the sort `sort`, with the next free number,
    /// in a fresh cell, and returns it.
    pub fn new_mvar(&mut self, sort: AtomID, bound: bool) -> (e: LispVal)
        ensures
            e == mvar_ref(old(self)@.mvars.len() as usize, sort, bound),
            final(self)@ == (Locals { mvars: old(self)@.mvars.push(e), ..old(self)@ }),
    {
        let n = self.mvars.len();
        self.mvars.push(LispVal::Ref(Box::new(LispVal::MVar(n, sort, bound))));
        LispVal::Ref(Box::new(LispVal::MVar(n, sort, bound)))
    }

    /// Makes sure that the context knows the variable `x`: one that it does
    /// not know enters it with nothing known of its sort.
    pub fn var(&mut self, x: AtomID)
        ensures
            final(self)@ == (Locals {
                vars: if old(self)@.vars.contains_key(x) {
                    old(self)@.vars
                } else {
                    old(self)@.vars.insert(x, unknown_sort())
                },
                ..old(self)@
            }),
    {
        if !self.vars.contains_key(&x) {
            self.vars.insert(x, InferSort::default());
            assert(self@.vars =~= old(self)@.vars.insert(x, unknown_sort()));
        } else {
            assert(self@.vars =~= old(self)@.vars);
        }
    }
}

/// What a binder introduces: a variable with what is known of its sort, or
/// a hypothesis.
#[derive(Debug)]
pub enum InferBinder {
    Var(Option<AtomID>, InferSort),
    Hyp(Option<AtomID>, LispVal),
}

/// What an [`InferBinder`] stands for.
pub enum BinderView {
    Var(Option<AtomID>, Sort),
    Hyp(Option<AtomID>, LispVal),
}

impl View for InferBinder {
    type V = BinderView;

    open spec fn view(&self) -> BinderView {
        match *self {
            InferBinder::Var(x, s) => BinderView::Var(x, s@),
            InferBinder::Hyp(x, f) => BinderView::Hyp(x, f),
        }
    }
}

/// What the elaboration of a binder gave.
pub open spec fn binder_result(r: Result<InferBinder, ElabError>) -> Result<BinderView, ErrorView> {
    match r {
        Ok(b) => Ok(b@),
        Err(e) => Err(e@),
    }
}

/// The elaborator of one file: the file and its text, the table of names,
/// the context of the declaration at hand, and the errors reported so far.
pub struct Elaborator {
    pub path: FileRef,
    pub source: Vec<u8>,
    pub atoms: AtomTable,
    pub lc: LocalContext,
    pub errors: Vec<ElabError>,
}

/// What an elaborator has computed: the names, the context and the errors.
pub struct ElabState {
    pub names: Seq<Seq<u8>>,
    pub lc: Locals,
    pub errors: Seq<ErrorView>,
}

impl View for Elaborator {
    type V = ElabState;

    open spec fn view(&self) -> ElabState {
        ElabState {
            names: self.atoms@,
            lc: self.lc@,
            errors: self.errors@.map_values(|e: ElabError| e@),
        }
    }
}

/// The text that `sp` covers in `source`. What lies behind the end of the
/// text is left out.
pub open spec fn span_text(source: Seq<u8>, sp: Span) -> Seq<u8> {
    let s = if sp.start <= source.len() {
        sp.start as int
    } else {
        source.len() as int
    };
    let e = if sp.end <= source.len() {
        sp.end as int
    } else {
        source.len() as int
    };
    source.subrange(
        s,
        if e < s {
            s
        } else {
            e
        },
    )
}

/// An error at `pos` with the message `msg`.
pub open spec fn error_at(pos: Span, msg: Seq<char>) -> ErrorView {
    ErrorView { pos, level: ErrorLevel::Error, msg }
}

/// The table of names and the numbers of the names after each span of
/// `spans` was looked up, in order.
pub open spec fn intern_all(names: Seq<Seq<u8>>, source: Seq<u8>, spans: Seq<Span>) -> (
    Seq<Seq<u8>>,
    Seq<AtomID>,
)
    decreases spans.len(),
{
    if spans.len() == 0 {
        (names, Seq::empty())
    } else {
        let (n1, ids) = intern_all(names, source, spans.drop_last());
        let t = span_text(source, spans.last());
        (interned(n1, t), ids.push(atom_id(n1, t) as usize))
    }
}

/// The variables after each of `ids` was made known, in order.
pub open spec fn declare_all(vars: Map<AtomID, Sort>, ids: Seq<AtomID>) -> Map<AtomID, Sort>
    decreases ids.len(),
{
    if ids.len() == 0 {
        vars
    } else {
        let v1 = declare_all(vars, ids.drop_last());
        if v1.contains_key(ids.last()) {
            v1
        } else {
            v1.insert(ids.last(), unknown_sort())
        }
    }
}

/// What the elaboration of one binder gives: the state after it, the
/// binder or an error, and whether an error was reported on the way.
pub struct Bound {
    pub st: ElabState,
    pub res: Result<BinderView, ErrorView>,
    pub raised: bool,
}

/// The elaboration of one binder: of the variable at `x`, of kind `lk`,
/// with the type `ty`.
///
/// A binder without a name, and one of kind `Anon`, introduces no name.
/// Without a type the sort is unknown. With a sort, a bound variable must
/// have no dependencies: where it has some, an error is reported over
/// them; a regular variable makes each of its dependencies known. With a
/// formula the binder is a hypothesis, or the error of the formula.
pub open spec fn spec_elab_binder(
    st: ElabState,
    source: Seq<u8>,
    x: Option<Span>,
    lk: LocalKind,
    ty: Option<Type>,
) -> Bound {
    let named = lk != LocalKind::Anon && x is Some;
    let n1 = if named {
        interned(st.names, span_text(source, x.unwrap()))
    } else {
        st.names
    };
    let x1 = if named {
        Some(atom_id(st.names, span_text(source, x.unwrap())) as usize)
    } else {
        None
    };
    match ty {
        None => Bound {
            st: ElabState { names: n1, ..st },
            res: Ok(
                BinderView::Var(
                    x1,
                    Sort::Unknown { must_bound: lk.spec_is_bound(), sorts: Map::empty() },
                ),
            ),
            raised: false,
        },
        Some(Type::DepType(d)) => {
            let t = span_text(source, d.sort);
            let n2 = interned(n1, t);
            let sort = atom_id(n1, t) as usize;
            if lk.spec_is_bound() {
                let raised = d.deps@.len() > 0;
                Bound {
                    st: ElabState {
                        names: n2,
                        errors: if raised {
                            st.errors.push(
                                error_at(
                                    Span { start: d.deps@[0].start, end: d.deps@.last().end },
                                    "dependencies not allowed in curly binders"@,
                                ),
                            )
                        } else {
                            st.errors
                        },
                        ..st
                    },
                    res: Ok(
                        BinderView::Var(
                            x1,
                            Sort::KnownBound { dummy: lk == LocalKind::Dummy, sort },
                        ),
                    ),
                    raised,
                }
            } else {
                let (n3, ids) = intern_all(n2, source, d.deps@);
                Bound {
                    st: ElabState {
                        names: n3,
                        lc: Locals { vars: declare_all(st.lc.vars, ids), ..st.lc },
                        ..st
                    },
                    res: Ok(BinderView::Var(x1, Sort::KnownReg { sort, deps: ids })),
                    raised: false,
                }
            }
        },
        Some(Type::Formula(f)) => Bound {
            st: ElabState { names: n1, ..st },
            res: match f.value {
                Ok(v) => Ok(BinderView::Hyp(x1, v)),
                Err(e) => Err(e@),
            },
            raised: false,
        },
    }
}

/// One item of a binder list: its place, the place of its variable if it
/// has a name, its kind and its type.
pub struct Item {
    pub span: Span,
    pub x: Option<Span>,
    pub lk: LocalKind,
    pub ty: Option<Type>,
}

/// The item that a binder is.
pub open spec fn binder_item(b: Binder) -> Item {
    Item { span: b.span, x: Some(b.local.0), lk: b.local.1, ty: b.ty }
}

/// The item that the type of an argument without a name is.
pub open spec fn type_item(t: Type) -> Item {
    Item { span: t.spec_span(), x: None, lk: LocalKind::Anon, ty: Some(t) }
}

/// How far the elaboration of a binder list has come: the state, the
/// hypotheses found, and whether any error was met.
pub struct Progress {
    pub st: ElabState,
    pub hyps: Seq<(Option<AtomID>, LispVal)>,
    pub error: bool,
}

/// The elaboration of one item of a binder list.
///
/// The error of a binder is reported. A variable after a hypothesis is an
/// error at the binder. A named variable takes its place in the context,
/// where a second binder for one name is an error at the name and replaces
/// what the first one said; a variable without a name only takes its place
/// in the order. A hypothesis is kept.
pub open spec fn step(p: Progress, source: Seq<u8>, it: Item) -> Progress {
    let b = spec_elab_binder(p.st, source, it.x, it.lk, it.ty);
    match b.res {
        Err(e) => Progress {
            st: ElabState { errors: b.st.errors.push(e), ..b.st },
            hyps: p.hyps,
            error: true,
        },
        Ok(BinderView::Var(x, is)) => {
            let late = p.hyps.len() > 0;
            let e1 = if late {
                b.st.errors.push(
                    error_at(it.span, "hypothesis binders must come after variable binders"@),
                )
            } else {
                b.st.errors
            };
            match x {
                Some(a) => {
                    let twice = b.st.lc.vars.contains_key(a);
                    Progress {
                        st: ElabState {
                            lc: Locals {
                                vars: b.st.lc.vars.insert(a, is),
                                var_order: b.st.lc.var_order.push((Some(a), None)),
                                ..b.st.lc
                            },
                            errors: if twice {
                                e1.push(
                                    error_at(
                                        it.x.unwrap(),
                                        "variable occurs twice in binder list"@,
                                    ),
                                )
                            } else {
                                e1
                            },
                            ..b.st
                        },
                        hyps: p.hyps,
                        error: p.error || b.raised || late || twice,
                    }
                },
                None => Progress {
                    st: ElabState {
                        lc: Locals {
                            var_order: b.st.lc.var_order.push((None, Some(is))),
                            ..b.st.lc
                        },
                        errors: e1,
                        ..b.st
                    },
                    hyps: p.hyps,
                    error: p.error || b.raised || late,
                },
            }
        },
        Ok(BinderView::Hyp(x, f)) => Progress {
            st: b.st,
            hyps: p.hyps.push((x, f)),
            error: p.error || b.raised,
        },
    }
}

/// The elaboration of the items `items`, in order.
pub open spec fn elab_items(p: Progress, source: Seq<u8>, items: Seq<Item>) -> Progress
    decreases items.len(),
{
    if items.len() == 0 {
        p
    } else {
        step(elab_items(p, source, items.drop_last()), source, items.last())
    }
}

/// The types of the arguments without a name of a declaration.
pub open spec fn arg_types(d: Decl) -> Seq<Type> {
    match d.ty {
        Some((args, _)) => args@,
        None => Seq::empty(),
    }
}

/// The elaboration of a declaration: of its binders, in order, then of the
/// types of its arguments without a name, as binders of kind `Anon`; and
/// last the error that declarations are not implemented, at its name.
pub open spec fn spec_elab_decl(st: ElabState, source: Seq<u8>, d: Decl) -> ElabState {
    let p0 = Progress { st, hyps: Seq::empty(), error: false };
    let p1 = elab_items(p0, source, d.bis@.map_values(|b: Binder| binder_item(b)));
    let p2 = elab_items(p1, source, arg_types(d).map_values(|t: Type| type_item(t)));
    ElabState { errors: p2.st.errors.push(error_at(d.id, "unimplemented"@)), ..p2.st }
}

impl Elaborator {
    /// An elaborator for the file `path` with the text `source`.
    pub fn new(path: FileRef, source: Vec<u8>) -> (e: Elaborator)
        ensures
            e.atoms.wf(),
            e.path == path,
            e.source == source,
            e@.names == Seq::<Seq<u8>>::empty(),
            e@.errors == Seq::<ErrorView>::empty(),
            e@.lc == no_locals(),
    {
        let e = Elaborator {
            path,
            source,
            atoms: AtomTable::new(),
            lc: LocalContext::new(),
            errors: Vec::new(),
        };
        assert(e@.errors =~= Seq::<ErrorView>::empty());
        e
    }

    /// Reports the error `e`.
    pub fn report(&mut self, e: ElabError)
        ensures
            final(self)@ == (ElabState { errors: old(self)@.errors.push(e@), ..old(self)@ }),
            final(self).path == old(self).path,
            final(self).source == old(self).source,
            final(self).atoms == old(self).atoms,
            final(self).lc == old(self).lc,
    {
        self.errors.push(e);
        assert(self@.errors =~= old(self)@.errors.push(e@));
    }

    /// The text that `sp` covers.
    pub fn span(&self, sp: Span) -> (t: Vec<u8>)
        ensures
            t@ == span_text(self.source@, sp),
    {
        let n = self.source.len();
        let s = if sp.start <= n {
            sp.start
        } else {
            n
        };
        let e = if sp.end <= n {
            sp.end
        } else {
            n
        };
        let e = if e < s {
            s
        } else {
            e
        };
        let mut t: Vec<u8> = Vec::new();
        let mut i: usize = s;
        assert(self.source@.subrange(s as int, s as int) =~= Seq::<u8>::empty());
        while i < e
            invariant
                s <= i <= e <= self.source@.len(),
                t@ == self.source@.subrange(s as int, i as int),
            decreases e - i,
        {
            t.push(self.source[i]);
            assert(self.source@.subrange(s as int, i + 1) =~= self.source@.subrange(
                s as int,
                i as int,
            ).push(self.source@[i as int]));
            i = i + 1;
        }
        t
    }

    /// The number of the name that `sp` covers.
    fn atom_at(&mut self, sp: Span) -> (a: AtomID)
        requires
            old(self).atoms.wf(),
        ensures
            final(self).atoms.wf(),
            a == atom_id(old(self)@.names, span_text(old(self).source@, sp)),
            final(self)@ == (ElabState {
                names: interned(old(self)@.names, span_text(old(self).source@, sp)),
                ..old(self)@
            }),
            final(self).path == old(self).path,
            final(self).source == old(self).source,
            final(self).lc == old(self).lc,
            final(self).errors == old(self).errors,
    {
        let name = self.span(sp);
        self.atoms.get_atom(name)
    }

    /// Elaborates one binder: the variable at `x`, of kind `lk`, with the
    /// type `ty`. Sets `error` where it reports an error.
    pub fn elab_binder(
        &mut self,
        error: &mut bool,
        x: Option<Span>,
        lk: LocalKind,
        ty: Option<Type>,
    ) -> (r: Result<InferBinder, ElabError>)
        requires
            old(self).atoms.wf(),
        ensures
            final(self).atoms.wf(),
            final(self).path == old(self).path,
            final(self).source == old(self).source,
            ({
                let b = spec_elab_binder(old(self)@, old(self).source@, x, lk, ty);
                &&& final(self)@ == b.st
                &&& binder_result(r) == b.res
                &&& *final(error) == (*old(error) || b.raised)
            }),
    {
        let ghost st = self@;
        let ghost source = self.source@;
        let x1 = match (lk, x) {
            (LocalKind::Anon, _) => None,
            (_, None) => None,
            (_, Some(sp)) => Some(self.atom_at(sp)),
        };
        let ghost n1 = self@.names;
        match ty {
            None => Ok(
                InferBinder::Var(
                    x1,
                    InferSort::Unknown { must_bound: lk.is_bound(), sorts: HashMap::new() },
                ),
            ),
            Some(Type::DepType(d)) => {
                let sort = self.atom_at(d.sort);
                if lk.is_bound() {
                    if d.deps.len() > 0 {
                        let pos = Span {
                            start: d.deps[0].start,
                            end: d.deps[d.deps.len() - 1].end,
                        };
                        self.report(
                            ElabError::new_e(
                                pos,
                                String::from_str("dependencies not allowed in curly binders"),
                            ),
                        );
                        *error = true;
                    }
                    let dummy = match lk {
                        LocalKind::Dummy => true,
                        _ => false,
                    };
                    Ok(InferBinder::Var(x1, InferSort::KnownBound { dummy, sort }))
                } else {
                    let ghost n2 = self@.names;
                    let ghost vars = self@.lc.vars;
                    let mut ids: Vec<AtomID> = Vec::new();
                    let mut i: usize = 0;
                    assert(d.deps@.take(0) =~= Seq::<Span>::empty());
                    while i < d.deps.len()
                        invariant
                            i <= d.deps.len(),
                            self.atoms.wf(),
                            self.path == old(self).path,
                            self.source == old(self).source,
                            source == self.source@,
                            self@.errors == st.errors,
                            self@.lc.var_order == st.lc.var_order,
                            self@.lc.mvars == st.lc.mvars,
                            self@.lc.goals == st.lc.goals,
                            (self@.names, ids@) == intern_all(n2, source, d.deps@.take(i as int)),
                            self@.lc.vars == declare_all(vars, ids@),
                        decreases d.deps.len() - i,
                    {
                        let y = self.atom_at(d.deps[i]);
                        self.lc.var(y);
                        let ghost before = ids@;
                        ids.push(y);
                        proof {
                            assert(d.deps@.take(i + 1).drop_last() =~= d.deps@.take(i as int));
                            assert(d.deps@.take(i + 1).last() == d.deps@[i as int]);
                            assert(ids@.drop_last() =~= before);
                        }
                        i = i + 1;
                    }
                    assert(d.deps@.take(i as int) =~= d.deps@);
                    Ok(InferBinder::Var(x1, InferSort::KnownReg { sort, deps: ids }))
                }
            },
            Some(Type::Formula(f)) => match f.value {
                Ok(v) => Ok(InferBinder::Hyp(x1, v)),
                Err(e) => Err(e),
            },
        }
    }

    /// Elaborates one item of a binder list.
    fn elab_item(
        &mut self,
        hyps: &mut Vec<(Option<AtomID>, LispVal)>,
        error: &mut bool,
        span: Span,
        xsp: Option<Span>,
        lk: LocalKind,
        ty: Option<Type>,
    )
        requires
            old(self).atoms.wf(),
        ensures
            final(self).atoms.wf(),
            final(self).path == old(self).path,
            final(self).source == old(self).source,
            (Progress { st: final(self)@, hyps: final(hyps)@, error: *final(error) }) == step(
                Progress { st: old(self)@, hyps: old(hyps)@, error: *old(error) },
                old(self).source@,
                Item { span, x: xsp, lk, ty },
            ),
    {
        let ghost p = Progress { st: self@, hyps: hyps@, error: *error };
        let ghost source = self.source@;
        let ghost b = spec_elab_binder(self@, source, xsp, lk, ty);
        match self.elab_binder(error, xsp, lk, ty) {
            Err(e) => {
                self.report(e);
                *error = true;
            },
            Ok(InferBinder::Var(x, is)) => {
                if hyps.len() > 0 {
                    self.report(
                        ElabError::new_e(
                            span,
                            String::from_str("hypothesis binders must come after variable binders"),
                        ),
                    );
                    *error = true;
                }
                match x {
                    Some(a) => {
                        let twice = self.lc.vars.contains_key(&a);
                        let ghost vars = self@.lc.vars;
                        let ghost order = self@.lc.var_order;
                        self.lc.vars.insert(a, is);
                        self.lc.var_order.push((Some(a), None));
                        proof {
                            assert(self@.lc.vars =~= vars.insert(a, is@));
                            assert(self@.lc.var_order =~= order.push((Some(a), None)));
                        }
                        if twice {
                            match xsp {
                                Some(sp) => {
                                    self.report(
                                        ElabError::new_e(
                                            sp,
                                            String::from_str("variable occurs twice in binder list"),
                                        ),
                                    );
                                },
                                None => {},
                            }
                            *error = true;
                        }
                    },
                    None => {
                        let ghost order = self@.lc.var_order;
                        let ghost entry = (None::<AtomID>, Some(is@));
                        self.lc.var_order.push((None, Some(is)));
                        proof {
                            assert(self@.lc.var_order =~= order.push(entry));
                        }
                    },
                }
            },
            Ok(InferBinder::Hyp(x, f)) => {
                hyps.push((x, f));
            },
        }
    }

    /// Elaborates the declaration `d`: its binders, then the types of its
    /// arguments without a name.
    pub fn elab_decl(&mut self, d: Decl)
        requires
            old(self).atoms.wf(),
        ensures
            final(self).atoms.wf(),
            final(self).path == old(self).path,
            final(self).source == old(self).source,
            final(self)@ == spec_elab_decl(old(self)@, old(self).source@, d),
    {
        let ghost source = self.source@;
        let ghost p0 = Progress { st: self@, hyps: Seq::empty(), error: false };
        let ghost items1 = d.bis@.map_values(|b: Binder| binder_item(b));
        let ghost items2 = arg_types(d).map_values(|t: Type| type_item(t));
        let Decl { k: _, id, bis, ty } = d;
        let mut hyps: Vec<(Option<AtomID>, LispVal)> = Vec::new();
        let mut error = false;
        let ghost binders = bis@;
        let mut rest = reversed(bis);
        assert(items1.take(0) =~= Seq::<Item>::empty());
        while rest.len() > 0
            invariant
                self.atoms.wf(),
                self.path == old(self).path,
                self.source == old(self).source,
                source == self.source@,
                rest@.len() <= binders.len(),
                items1 == binders.map_values(|b: Binder| binder_item(b)),
                forall|j: int| 0 <= j < rest@.len() ==> rest@[j] == binders[binders.len() - 1 - j],
                (Progress { st: self@, hyps: hyps@, error }) == elab_items(
                    p0,
                    source,
                    items1.take(binders.len() - rest@.len()),
                ),
            decreases rest.len(),
        {
            let ghost k = binders.len() - rest@.len();
            let b = rest.pop().unwrap();
            proof {
                assert(b == binders[k]);
                assert(items1.take(k + 1).drop_last() =~= items1.take(k));
                assert(items1.take(k + 1).last() == binder_item(b));
            }
            let Binder { span, local, ty } = b;
            self.elab_item(&mut hyps, &mut error, span, Some(local.0), local.1, ty);
        }
        assert(items1.take(binders.len() as int) =~= items1);
        let ghost p1 = elab_items(p0, source, items1);
        let args = match ty {
            Some((args, _)) => args,
            None => Vec::new(),
        };
        let ghost types = args@;
        assert(types =~= arg_types(d));
        let mut rest = reversed(args);
        assert(items2.take(0) =~= Seq::<Item>::empty());
        while rest.len() > 0
            invariant
                self.atoms.wf(),
                self.path == old(self).path,
                self.source == old(self).source,
                source == self.source@,
                rest@.len() <= types.len(),
                items2 == types.map_values(|t: Type| type_item(t)),
                forall|j: int| 0 <= j < rest@.len() ==> rest@[j] == types[types.len() - 1 - j],
                (Progress { st: self@, hyps: hyps@, error }) == elab_items(
                    p1,
                    source,
                    items2.take(types.len() - rest@.len()),
                ),
            decreases rest.len(),
        {
            let ghost k = types.len() - rest@.len();
            let t = rest.pop().unwrap();
            proof {
                assert(t == types[k]);
                assert(items2.take(k + 1).drop_last() =~= items2.take(k));
                assert(items2.take(k + 1).last() == type_item(t));
            }
            let span = t.span();
            self.elab_item(&mut hyps, &mut error, span, None, LocalKind::Anon, Some(t));
        }
        assert(items2.take(types.len() as int) =~= items2);
        self.report(ElabError::new_e(id, String::from_str("unimplemented")));
    }

    /// The place to report an error on the value `e` that was found at
    /// `sp`: the place that the value carries, if that lies in this file
    /// and not before `sp`; else `sp`.
    pub fn try_get_span(&self, sp: Span, e: &LispVal) -> (r: Span)
        ensures
            r == match spec_fspan(*e) {
                Some(fsp) => if self.path == fsp.file && fsp.span.start >= sp.start {
                    fsp.span
                } else {
                    sp
                },
                None => sp,
            },
    {
        match e.fspan() {
            Some(fsp) => if self.path == fsp.file && fsp.span.start >= sp.start {
                fsp.span
            } else {
                sp
            },
            None => sp,
        }
    }

    /// The answer to a value that is no expression: an error at its place.
    pub fn elaborate_term_other(&self, sp: Span, e: &LispVal) -> (r: Result<LispVal, ElabError>)
        ensures
            r matches Err(err) && err@ == error_at(
                match spec_fspan(*e) {
                    Some(fsp) => if self.path == fsp.file && fsp.span.start >= sp.start {
                        fsp.span
                    } else {
                        sp
                    },
                    None => sp,
                },
                "Not a valid expression"@,
            ),
    {
        Err(ElabError::new_e(self.try_get_span(sp, e), String::from_str("Not a valid expression")))
    }
}

} // verus!
