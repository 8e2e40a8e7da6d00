//! The table of names.

use crate::util::{FileRef, FileSpan, Span};
use vstd::prelude::*;

verus! {

/// The number of a name in the table of names.
pub type AtomID = usize;

/// The number of `name` in `names`: the index at which it stands, or the
/// length of the table if it is not in it.
pub open spec fn atom_id(names: Seq<Seq<u8>>, name: Seq<u8>) -> int {
    if names.contains(name) {
        choose|i: int| 0 <= i < names.len() && names[i] == name
    } else {
        names.len() as int
    }
}

/// The table after `name` was looked up: a name that was not in it stands at
/// its end.
pub open spec fn interned(names: Seq<Seq<u8>>, name: Seq<u8>) -> Seq<Seq<u8>> {
    if names.contains(name) {
        names
    } else {
        names.push(name)
    }
}

/// The names that were seen, each once. A name's number is its index.
pub struct AtomTable {
    names: Vec<Vec<u8>>,
}

impl View for AtomTable {
    type V = Seq<Seq<u8>>;

    closed spec fn view(&self) -> Seq<Seq<u8>> {
        self.names@.map_values(|n: Vec<u8>| n@)
    }
}

/// Whether two names are the same.
fn same_name(a: &Vec<u8>, b: &Vec<u8>) -> (r: bool)
    ensures
        r == (a@ == b@),
{
    if a.len() != b.len() {
        return false;
    }
    let mut i: usize = 0;
    while i < a.len()
        invariant
            a@.len() == b@.len(),
            i <= a.len(),
            forall|j: int| 0 <= j < i ==> a@[j] == b@[j],
        decreases a.len() - i,
    {
        if a[i] != b[i] {
            return false;
        }
        i = i + 1;
    }
    assert(a@ =~= b@);
    true
}

impl AtomTable {
    /// Every name stands in the table once.
    pub open spec fn wf(&self) -> bool {
        self@.no_duplicates()
    }

    /// The empty table.
    pub fn new() -> (t: Self)
        ensures
            t.wf(),
            t@ == Seq::<Seq<u8>>::empty(),
    {
        let t = AtomTable { names: Vec::new() };
        assert(t@ =~= Seq::<Seq<u8>>::empty());
        t
    }

    /// The number of names in the table.
    pub fn len(&self) -> (n: usize)
        ensures
            n == self@.len(),
    {
        self.names.len()
    }

    /// The name with the number `a`.
    pub fn name(&self, a: AtomID) -> (r: Option<&Vec<u8>>)
        ensures
            match r {
                Some(n) => a < self@.len() && n@ == self@[a as int],
                None => a >= self@.len(),
            },
    {
        if a < self.names.len() {
            Some(&self.names[a])
        } else {
            None
        }
    }

    /// The number of `name`, which enters the table if it is new.
    pub fn get_atom(&mut self, name: Vec<u8>) -> (a: AtomID)
        requires
            old(self).wf(),
        ensures
            final(self).wf(),
            a == atom_id(old(self)@, name@),
            final(self)@ == interned(old(self)@, name@),
            a < final(self)@.len(),
            final(self)@[a as int] == name@,
    {
        let ghost before = self@;
        let mut i: usize = 0;
        while i < self.names.len()
            invariant
                i <= self.names.len(),
                self@ == before,
                before.no_duplicates(),
                forall|j: int| 0 <= j < i ==> before[j] != name@,
            decreases self.names.len() - i,
        {
            if same_name(&self.names[i], &name) {
                proof {
                    assert(before[i as int] == name@);
                    assert(before.contains(name@));
                    let c = atom_id(before, name@);
                    assert(before[c] == name@);
                }
                return i;
            }
            i = i + 1;
        }
        assert(!before.contains(name@));
        self.names.push(name);
        assert(self@ =~= before.push(name@));
        i
    }
}

/// The number of a sort, of a term and of a theorem in the environment.
pub type SortID = usize;

pub type TermID = usize;

pub type ThmID = usize;

/// Where something was declared: the place of its name, and the span of
/// the whole declaration in the same file.
#[derive(Clone, Copy, Debug, PartialEq, Eq, Structural)]
pub struct Declared {
    pub span: FileSpan,
    pub full: Span,
}

/// The declaration that a name stands for.
#[derive(Clone, Copy, Debug, PartialEq, Eq, Structural)]
pub enum DeclKey {
    Term(TermID),
    Thm(ThmID),
}

/// What the environment knows of a name: the sort, the term or theorem and
/// the place of the definition that it names, where it names one.
#[derive(Clone, Copy, Debug, PartialEq, Eq, Structural)]
pub struct AtomData {
    pub sort: Option<SortID>,
    pub decl: Option<DeclKey>,
    pub lisp: Option<Declared>,
}

/// What a span of a text refers to.
#[derive(Clone, Copy, Debug, PartialEq, Eq, Structural)]
pub enum ObjectKind {
    Sort(SortID),
    Term(TermID, Span),
    Thm(ThmID),
    Var(AtomID),
    Global(AtomID),
    Import(FileRef),
}

/// The result of elaborating a file, as far as requests read it: the
/// places of the sorts, terms and theorems, and what each name stands for.
#[derive(Debug)]
pub struct Environment {
    pub sorts: Vec<Declared>,
    pub terms: Vec<Declared>,
    pub thms: Vec<Declared>,
    pub data: Vec<AtomData>,
}

impl Environment {
    /// The environment has the declaration that `k` names.
    pub open spec fn has_decl(&self, k: DeclKey) -> bool {
        match k {
            DeclKey::Term(t) => t < self.terms@.len(),
            DeclKey::Thm(t) => t < self.thms@.len(),
        }
    }

    /// Every name stands for a sort and a declaration that the environment
    /// has.
    pub open spec fn wf(&self) -> bool {
        forall|a: int|
            0 <= a < self.data@.len() ==> {
                &&& (#[trigger] self.data@[a]).sort matches Some(s) ==> s < self.sorts@.len()
                &&& self.data@[a].decl matches Some(k) ==> self.has_decl(k)
            }
    }

    /// The environment has what `k` refers to.
    pub open spec fn has(&self, k: ObjectKind) -> bool {
        match k {
            ObjectKind::Sort(s) => s < self.sorts@.len(),
            ObjectKind::Term(t, _) => t < self.terms@.len(),
            ObjectKind::Thm(t) => t < self.thms@.len(),
            ObjectKind::Var(_) => true,
            ObjectKind::Global(a) => a < self.data@.len(),
            ObjectKind::Import(_) => true,
        }
    }

    /// Whether the environment is well formed.
    pub fn check(&self) -> (r: bool)
        ensures
            r == self.wf(),
    {
        let mut a: usize = 0;
        while a < self.data.len()
            invariant
                a <= self.data.len(),
                forall|b: int|
                    0 <= b < a ==> {
                        &&& (#[trigger] self.data@[b]).sort matches Some(s) ==> s
                            < self.sorts@.len()
                        &&& self.data@[b].decl matches Some(k) ==> self.has_decl(k)
                    },
            decreases self.data.len() - a,
        {
            let ad = self.data[a];
            match ad.sort {
                Some(s) => if s >= self.sorts.len() {
                    return false;
                },
                None => {},
            }
            match ad.decl {
                Some(DeclKey::Term(t)) => if t >= self.terms.len() {
                    return false;
                },
                Some(DeclKey::Thm(t)) => if t >= self.thms.len() {
                    return false;
                },
                None => {},
            }
            a = a + 1;
        }
        true
    }

    /// Whether the environment has what `k` refers to.
    pub fn knows(&self, k: ObjectKind) -> (r: bool)
        ensures
            r == self.has(k),
    {
        match k {
            ObjectKind::Sort(s) => s < self.sorts.len(),
            ObjectKind::Term(t, _) => t < self.terms.len(),
            ObjectKind::Thm(t) => t < self.thms.len(),
            ObjectKind::Var(_) => true,
            ObjectKind::Global(a) => a < self.data.len(),
            ObjectKind::Import(_) => true,
        }
    }
}

} // verus!
