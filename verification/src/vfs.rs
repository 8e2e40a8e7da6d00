//! The virtual file store.

use crate::graph::{
    lemma_abort_keeps_graph, lemma_begin_keeps_graph, lemma_change_keeps_graph,
    lemma_close_keeps_graph, lemma_finish_keeps_graph, lemma_join_keeps_graph,
    lemma_open_keeps_graph,
};
use crate::hash::{content_hash, hash_input, hash_token, spec_content_hash, start_hash};
use crate::model::{
    abort_state, answered, begin_slot, begin_state, begin_step, change_state, close_state,
    dep_hashes, dependents, deps_ready, feeds, finish_state, graph_wf, imports,
    is_valid, join_state, knows_all, open_state, published, ready_hash, recorded_deps,
    recorded_with, retracted, update_downstream_state, waiters_of, FileState, Files, Slot, Step,
};
use crate::text::{apply_changes, TextEdit};
use crate::util::{reversed, ElabError, FileRef, ServerError};
use core::hash::Hasher;
use std::collections::{HashMap, HashSet};
use std::sync::Arc;
use vstd::bytes::spec_u64_to_le_bytes;
use vstd::prelude::*;
use vstd::std_specs::hash::spec_hash_keys_iter;
use vstd::std_specs::iter::IteratorSpec;

verus! {

/// The cache of a file: a computation in progress, or the last result.
///
/// `A` is the type of syntax trees, `V` that of environments, `W` that of
/// the handles through which waiters are answered, and `C` that of cancel
/// flags. The store only keeps and hands out values of these types.
pub enum FileCache<A, V, W, C> {
    InProgress { version: Option<i64>, cancel: C, senders: Vec<W>, deps: Vec<FileRef> },
    Ready {
        hash: u64,
        ast: Arc<A>,
        errors: Vec<ElabError>,
        env: Arc<V>,
        deps: Vec<FileRef>,
        complete: bool,
    },
}

/// The slot that an optional cache stands for.
pub open spec fn slot_view<A, V, W, C>(p: Option<FileCache<A, V, W, C>>) -> Slot<A, V, W, C> {
    match p {
        None => Slot::Empty,
        Some(FileCache::InProgress { version, cancel, senders, deps }) => Slot::InProgress {
            version,
            cancel,
            waiters: senders@,
            deps: deps@,
        },
        Some(FileCache::Ready { hash, ast, errors, env, deps, complete }) => Slot::Ready {
            hash,
            ast,
            errors: errors@,
            env,
            deps: deps@,
            complete,
        },
    }
}

/// A file of the store.
pub struct VirtualFile<A, V, W, C> {
    /// The version and the text. The version is `None` while the client has
    /// not the file open.
    text: (Option<i64>, Vec<u8>),
    /// The cache slot.
    parsed: Option<FileCache<A, V, W, C>>,
    /// The files that depend on this one.
    downstream: HashSet<FileRef>,
}

impl<A, V, W, C> View for VirtualFile<A, V, W, C> {
    type V = FileState<A, V, W, C>;

    closed spec fn view(&self) -> FileState<A, V, W, C> {
        FileState {
            version: self.text.0,
            text: self.text.1@,
            slot: slot_view(self.parsed),
            downstream: self.downstream@,
        }
    }
}

/// Whether `x` occurs in `v`.
pub fn vec_contains(v: &Vec<FileRef>, x: FileRef) -> (r: bool)
    ensures
        r == v@.contains(x),
{
    position(v, x).is_some()
}

/// A copy of `v`.
pub fn copy_refs(v: &Vec<FileRef>) -> (r: Vec<FileRef>)
    ensures
        r@ == v@,
{
    let mut r: Vec<FileRef> = Vec::new();
    let mut i: usize = 0;
    while i < v.len()
        invariant
            i <= v.len(),
            r@ == v@.take(i as int),
        decreases v.len() - i,
    {
        r.push(v[i]);
        assert(v@.take(i + 1) =~= v@.take(i as int).push(v@[i as int]));
        i = i + 1;
    }
    assert(v@.take(i as int) =~= v@);
    r
}

/// The first index at which `x` occurs in `v`.
pub fn position(v: &Vec<FileRef>, x: FileRef) -> (r: Option<usize>)
    ensures
        match r {
            Some(i) => i < v@.len() && v@[i as int] == x && forall|j: int|
                0 <= j < i ==> v@[j] != x,
            None => !v@.contains(x),
        },
{
    let mut i: usize = 0;
    while i < v.len()
        invariant
            i <= v.len(),
            forall|j: int| 0 <= j < i ==> v@[j] != x,
        decreases v.len() - i,
    {
        if v[i] == x {
            return Some(i);
        }
        i = i + 1;
    }
    None
}

impl<A, V, W, C> VirtualFile<A, V, W, C> {
    /// A file with an empty slot and no dependents.
    pub fn new(version: Option<i64>, text: Vec<u8>) -> (file: Self)
        ensures
            file@ == (FileState::<A, V, W, C> {
                version,
                text: text@,
                slot: Slot::Empty,
                downstream: Set::empty(),
            }),
    {
        VirtualFile { text: (version, text), parsed: None, downstream: HashSet::new() }
    }

    /// The version of the text, if the client has the file open.
    pub fn version(&self) -> (v: Option<i64>)
        ensures
            v == self@.version,
    {
        self.text.0
    }

    /// The text.
    pub fn source(&self) -> (t: &Vec<u8>)
        ensures
            t@ == self@.text,
    {
        &self.text.1
    }

    /// The cache slot: `None` while nothing was computed.
    pub fn cache(&self) -> (c: &Option<FileCache<A, V, W, C>>)
        ensures
            slot_view(*c) == self@.slot,
    {
        &self.parsed
    }

    /// The dependency list whose edges the import graph records for this
    /// file.
    pub fn recorded(&self) -> (deps: Vec<FileRef>)
        ensures
            deps@ == recorded_deps(self@.slot),
    {
        match &self.parsed {
            None => Vec::new(),
            Some(FileCache::InProgress { deps, .. }) => copy_refs(deps),
            Some(FileCache::Ready { deps, .. }) => copy_refs(deps),
        }
    }

    /// The files that depend on this one.
    pub fn dependents(&self) -> (d: &HashSet<FileRef>)
        ensures
            d@ == self@.downstream,
    {
        &self.downstream
    }
}

/// A request to compute the result of a file. `start` is the offset from
/// which the text has changed, where that is known; without it the file is
/// checked in full.
#[derive(Clone, Copy, Debug, PartialEq, Eq, Structural)]
pub struct Trigger {
    pub file: FileRef,
    pub start: Option<usize>,
}

/// The requests to check each file of `ds` in full, in order.
pub open spec fn full_checks(ds: Seq<FileRef>) -> Seq<Trigger> {
    ds.map_values(|d: FileRef| Trigger { file: d, start: None })
}

/// `r` asks for a full check of each file of `ds`, once: it names only
/// files of `ds`, none twice, and as many as `ds` has.
pub open spec fn checks_each(r: Seq<Trigger>, ds: Set<FileRef>) -> bool {
    &&& ds.finite()
    &&& r.len() == ds.len()
    &&& forall|i: int| 0 <= i < r.len() ==> ds.contains((#[trigger] r[i]).file) && r[i].start is None
    &&& forall|i: int, j: int| 0 <= i < j < r.len() ==> (#[trigger] r[i]).file != (#[trigger] r[j]).file
}

/// The full checks of a list that names each file once ask for each file
/// of the list, once.
proof fn lemma_checks_each(v: Seq<FileRef>)
    requires
        v.no_duplicates(),
    ensures
        checks_each(full_checks(v), v.to_set()),
{
    v.unique_seq_to_set();
    let r = full_checks(v);
    assert forall|i: int| 0 <= i < r.len() implies v.to_set().contains((#[trigger] r[i]).file)
        && r[i].start is None by {
        assert(v[i] == r[i].file);
        assert(v.contains(v[i]));
    }
}

/// The requests to check each file of `ds` in full, each once.
fn triggers_for(ds: &HashSet<FileRef>) -> (r: Vec<Trigger>)
    ensures
        checks_each(r@, ds@),
{
    let mut r: Vec<Trigger> = Vec::new();
    let ghost keys = spec_hash_keys_iter(ds).remaining();
    for k in it: ds.iter()
        invariant
            it.seq() == keys,
            r@.len() == it.index(),
            forall|j: int| 0 <= j < r@.len() ==> r@[j] == (Trigger { file: *keys[j], start: None }),
    {
        r.push(Trigger { file: *k, start: None });
    }
    proof {
        assert(r@ =~= full_checks(keys.unref()));
        lemma_checks_each(keys.unref());
    }
    r
}

/// The virtual file store: every file that is open, was asked for, or is a
/// dependency of another file.
pub struct VFS<A, V, W, C> {
    files: HashMap<FileRef, VirtualFile<A, V, W, C>>,
}

impl<A, V, W, C> View for VFS<A, V, W, C> {
    type V = Files<A, V, W, C>;

    closed spec fn view(&self) -> Files<A, V, W, C> {
        Map::new(|f: FileRef| self.files@.contains_key(f), |f: FileRef| self.files@[f]@)
    }
}

impl<A, V, W, C> VFS<A, V, W, C> {
    /// The store is well formed: its import graph is consistent.
    pub closed spec fn wf(&self) -> bool {
        graph_wf(self@)
    }

    /// A well-formed store has a consistent import graph.
    pub proof fn lemma_wf_graph(&self)
        requires
            self.wf(),
        ensures
            graph_wf(self@),
    {
    }

    /// The empty store.
    pub fn new() -> (vfs: Self)
        ensures
            vfs.wf(),
            vfs@ == Map::<FileRef, FileState<A, V, W, C>>::empty(),
    {
        let vfs = VFS { files: HashMap::new() };
        assert(vfs@ =~= Map::<FileRef, FileState<A, V, W, C>>::empty());
        assert(vfs@.dom() =~= Set::empty());
        vfs
    }

    /// The file `path`, if the store knows it.
    pub fn get(&self, path: FileRef) -> (file: Option<&VirtualFile<A, V, W, C>>)
        ensures
            match file {
                Some(file) => self@.contains_key(path) && file@ == self@[path],
                None => !self@.contains_key(path),
            },
    {
        self.files.get(&path)
    }

    /// Makes sure that the store knows `path`: an unknown file enters it
    /// with `text`, as a file that the client has not open. Returns whether
    /// it entered.
    pub fn get_or_insert(&mut self, path: FileRef, text: Vec<u8>) -> (inserted: bool)
        requires
            old(self).wf(),
        ensures
            final(self).wf(),
            inserted == !old(self)@.contains_key(path),
            inserted ==> final(self)@ == open_state(old(self)@, path, None, text@),
            !inserted ==> final(self)@ == old(self)@,
    {
        if self.files.contains_key(&path) {
            false
        } else {
            let ghost before = self@;
            let file = VirtualFile::new(None, text);
            self.files.insert(path, file);
            proof {
                assert(self@ =~= open_state(before, path, None, text@));
                lemma_open_keeps_graph(before, path, None, text@);
            }
            true
        }
    }

    /// The text of `file`, which the store knows.
    pub fn source(&self, file: FileRef) -> (text: &Vec<u8>)
        requires
            self@.contains_key(file),
        ensures
            text@ == self@[file].text,
    {
        let f = self.files.get(&file);
        f.unwrap().source()
    }

    /// The client opens `path` with `version` and `text`. A known file gets
    /// both and keeps its slot and its dependents. Returns what has to be
    /// checked: each dependent of a known file in full, and last the file
    /// itself from the start of its text.
    pub fn open_virt(&mut self, path: FileRef, version: i64, text: Vec<u8>) -> (todo: Vec<Trigger>)
        requires
            old(self).wf(),
        ensures
            final(self).wf(),
            final(self)@ == open_state(old(self)@, path, Some(version), text@),
            todo@.len() > 0,
            todo@.last() == (Trigger { file: path, start: Some(0) }),
            checks_each(todo@.drop_last(), dependents(old(self)@, path)),
    {
        let ghost before = self@;
        let mut todo: Vec<Trigger>;
        match self.files.remove(&path) {
            Some(old_file) => {
                let VirtualFile { text: _, parsed, downstream } = old_file;
                todo = triggers_for(&downstream);
                let ghost asked = todo@;
                self.files.insert(path, VirtualFile { text: (Some(version), text), parsed, downstream });
                todo.push(Trigger { file: path, start: Some(0) });
                proof {
                    assert(todo@.drop_last() =~= asked);
                }
            },
            None => {
                self.files.insert(path, VirtualFile::new(Some(version), text));
                todo = Vec::new();
                todo.push(Trigger { file: path, start: Some(0) });
                proof {
                    let v = Seq::<FileRef>::empty();
                    assert(todo@.drop_last() =~= full_checks(v));
                    assert(v.to_set() =~= Set::empty());
                    lemma_checks_each(v);
                }
            },
        }
        proof {
            assert(self@ =~= open_state(before, path, Some(version), text@));
            lemma_open_keeps_graph(before, path, Some(version), text@);
        }
        todo
    }
}

/// The store after `to` left the downstream sets of the files of `removed`
/// that `deps` does not name, and entered those of the files of `added`
/// that `old_deps` does not name.
spec fn moved<A, V, W, C>(
    m: Files<A, V, W, C>,
    removed: Seq<FileRef>,
    added: Seq<FileRef>,
    old_deps: Seq<FileRef>,
    deps: Seq<FileRef>,
    to: FileRef,
) -> Files<A, V, W, C> {
    Map::new(
        |d: FileRef| m.contains_key(d),
        |d: FileRef|
            FileState {
                downstream: if removed.contains(d) && !deps.contains(d) {
                    m[d].downstream.remove(to)
                } else if added.contains(d) && !old_deps.contains(d) {
                    m[d].downstream.insert(to)
                } else {
                    m[d].downstream
                },
                ..m[d]
            },
    )
}

impl<A, V, W, C> VFS<A, V, W, C> {
    /// Adds `to` to the dependents of `from`, or removes it.
    fn set_edge(&mut self, from: FileRef, to: FileRef, present: bool)
        requires
            old(self)@.contains_key(from),
        ensures
            final(self)@ == old(self)@.insert(
                from,
                FileState {
                    downstream: if present {
                        old(self)@[from].downstream.insert(to)
                    } else {
                        old(self)@[from].downstream.remove(to)
                    },
                    ..old(self)@[from]
                },
            ),
    {
        let ghost before = self@;
        let file = self.files.remove(&from);
        let mut file = file.unwrap();
        if present {
            file.downstream.insert(to);
        } else {
            file.downstream.remove(&to);
        }
        self.files.insert(from, file);
        proof {
            assert(self@ =~= before.insert(
                from,
                FileState {
                    downstream: if present {
                        before[from].downstream.insert(to)
                    } else {
                        before[from].downstream.remove(to)
                    },
                    ..before[from]
                },
            ));
        }
    }

    /// Moves the edges of `to` from the dependency list `old_deps` to the
    /// list `deps`: `to` leaves the dependents of each file that only
    /// `old_deps` names, and joins those of each file that only `deps`
    /// names. Only those files have to be in the store.
    fn update_downstream(&mut self, old_deps: &Vec<FileRef>, deps: &Vec<FileRef>, to: FileRef)
        requires
            forall|i: int|
                0 <= i < old_deps@.len() && !deps@.contains(old_deps@[i]) ==> old(
                    self,
                )@.contains_key(#[trigger] old_deps@[i]),
            forall|i: int|
                0 <= i < deps@.len() && !old_deps@.contains(deps@[i]) ==> old(self)@.contains_key(
                    #[trigger] deps@[i],
                ),
        ensures
            final(self)@ == update_downstream_state(old(self)@, old_deps@, deps@, to),
    {
        let ghost m = self@;
        let ghost none = Seq::<FileRef>::empty();
        proof {
            assert(old_deps@.take(0) =~= none);
            assert(self@ =~= moved(m, none, none, old_deps@, deps@, to));
        }
        let mut i: usize = 0;
        while i < old_deps.len()
            invariant
                i <= old_deps.len(),
                none == Seq::<FileRef>::empty(),
                forall|i: int|
                    0 <= i < old_deps@.len() && !deps@.contains(old_deps@[i]) ==> m.contains_key(
                        #[trigger] old_deps@[i],
                    ),
                self@ == moved(m, old_deps@.take(i as int), none, old_deps@, deps@, to),
            decreases old_deps.len() - i,
        {
            let from = old_deps[i];
            let ghost cur = self@;
            assert(old_deps@.take(i + 1) =~= old_deps@.take(i as int).push(from));
            if !vec_contains(deps, from) {
                self.set_edge(from, to, false);
                proof {
                    let next = moved(m, old_deps@.take(i + 1), none, old_deps@, deps@, to);
                    assert forall|d: FileRef| next.contains_key(d) implies #[trigger] self@[d]
                        == next[d] by {
                        if d == from {
                            assert(old_deps@.take(i + 1)[i as int] == from);
                            assert(old_deps@.take(i + 1).contains(from));
                            assert(self@[d].downstream =~= next[d].downstream);
                        } else {
                            assert(old_deps@.take(i + 1).contains(d) == old_deps@.take(
                                i as int,
                            ).contains(d));
                        }
                    }
                    assert(self@ =~= next);
                }
            } else {
                proof {
                    let next = moved(m, old_deps@.take(i + 1), none, old_deps@, deps@, to);
                    assert forall|d: FileRef| next.contains_key(d) implies #[trigger] self@[d]
                        == next[d] by {
                        if d != from {
                            assert(old_deps@.take(i + 1).contains(d) == old_deps@.take(
                                i as int,
                            ).contains(d));
                        }
                    }
                    assert(self@ =~= next);
                }
            }
            i = i + 1;
        }
        proof {
            assert(old_deps@.take(i as int) =~= old_deps@);
            assert(deps@.take(0) =~= none);
        }
        let mut j: usize = 0;
        while j < deps.len()
            invariant
                j <= deps.len(),
                forall|i: int|
                    0 <= i < deps@.len() && !old_deps@.contains(deps@[i]) ==> m.contains_key(
                        #[trigger] deps@[i],
                    ),
                self@ == moved(m, old_deps@, deps@.take(j as int), old_deps@, deps@, to),
            decreases deps.len() - j,
        {
            let from = deps[j];
            assert(deps@.take(j + 1) =~= deps@.take(j as int).push(from));
            if !vec_contains(old_deps, from) {
                self.set_edge(from, to, true);
                proof {
                    let next = moved(m, old_deps@, deps@.take(j + 1), old_deps@, deps@, to);
                    assert forall|d: FileRef| next.contains_key(d) implies #[trigger] self@[d]
                        == next[d] by {
                        if d == from {
                            assert(deps@.take(j + 1)[j as int] == from);
                            assert(deps@.take(j + 1).contains(from));
                            assert(self@[d].downstream =~= next[d].downstream);
                        } else {
                            assert(deps@.take(j + 1).contains(d) == deps@.take(j as int).contains(
                                d,
                            ));
                        }
                    }
                    assert(self@ =~= next);
                }
            } else {
                proof {
                    let next = moved(m, old_deps@, deps@.take(j + 1), old_deps@, deps@, to);
                    assert forall|d: FileRef| next.contains_key(d) implies #[trigger] self@[d]
                        == next[d] by {
                        if d != from {
                            assert(deps@.take(j + 1).contains(d) == deps@.take(j as int).contains(
                                d,
                            ));
                        }
                    }
                    assert(self@ =~= next);
                }
            }
            j = j + 1;
        }
        proof {
            assert(deps@.take(j as int) =~= deps@);
            assert(self@ =~= update_downstream_state(m, old_deps@, deps@, to));
        }
    }
}

/// Records that `dep` was consulted: it enters the dependency list `deps`
/// at the end, unless the list names it already.
pub fn record_dependency(deps: &mut Vec<FileRef>, dep: FileRef)
    ensures
        final(deps)@ == recorded_with(old(deps)@, dep),
{
    if !vec_contains(deps, dep) {
        deps.push(dep);
    }
}

/// What closing a file asks for.
pub struct Closed<W> {
    /// The file left the store: its published diagnostics have to be
    /// replaced by an empty list.
    pub retract: bool,
    /// What has to be checked.
    pub todo: Vec<Trigger>,
    /// The waiters that the file held when it left the store. No result
    /// will be handed in for them any more, and they are owed an answer all
    /// the same.
    pub waiters: Vec<W>,
}

/// What a caller that asks for the result of a file has to do.
pub enum Outcome<A, V, C> {
    /// The cached result is valid.
    AlreadyValid { hash: u64, env: Arc<V> },
    /// A computation for the same version is running: queue a waiter with
    /// [`VFS::join`] and wait for its answer.
    Join,
    /// Compute a fresh result and hand it in with [`VFS::finish`].
    /// `old_ast` and `old_env` offer the previous result for reuse,
    /// `old_deps` is its dependency list, and `superseded` is the cancel
    /// flag of a running computation for another version, which has to be
    /// raised.
    Start {
        old_ast: Option<(usize, Arc<A>)>,
        old_env: Option<(Vec<ElabError>, Arc<V>)>,
        old_deps: Vec<FileRef>,
        superseded: Option<C>,
    },
}

impl<A, V, C> View for Outcome<A, V, C> {
    type V = Step<A, V, C>;

    open spec fn view(&self) -> Step<A, V, C> {
        match *self {
            Outcome::AlreadyValid { hash, env } => Step::AlreadyValid { hash, env },
            Outcome::Join => Step::Join,
            Outcome::Start { old_ast, old_env, old_deps, superseded } => Step::Start {
                old_ast,
                old_env: match old_env {
                    Some((errors, env)) => Some((errors@, env)),
                    None => None,
                },
                old_deps: old_deps@,
                superseded,
            },
        }
    }
}

/// The answer that a waiter is owed.
pub struct Delivery<V, W> {
    pub waiter: W,
    pub hash: u64,
    pub env: Arc<V>,
}

/// `ds` answers each waiter of `ws`, in order, with `hash` and `env`.
pub open spec fn answers<V, W>(ds: Seq<Delivery<V, W>>, ws: Seq<W>, hash: u64, env: Arc<V>) -> bool {
    &&& ds.len() == ws.len()
    &&& forall|i: int|
        0 <= i < ds.len() ==> (#[trigger] ds[i]).waiter == ws[i] && ds[i].hash == hash && ds[i].env
            == env
}

/// What handing in a result asks for.
pub struct Finished<V, W> {
    /// The result, for the caller that computed it.
    pub hash: u64,
    pub env: Arc<V>,
    /// The answers to the waiters that the slot held.
    pub deliveries: Vec<Delivery<V, W>>,
    /// The errors of the result have to be published as the diagnostics of
    /// the file, in place of what was published for it before.
    pub publish: bool,
    /// What has to be checked: each dependent of the file.
    pub todo: Vec<Trigger>,
}

/// `Arc::clone` of std: a second handle to the value that `a` points to.
/// The contract claims that the new handle equals the old one, that is, that
/// both point to the same value.
#[verifier::external_body]
fn share<T>(a: &Arc<T>) -> (r: Arc<T>)
    ensures
        r == *a,
{
    Arc::clone(a)
}

/// Whether two versions are the same.
fn same_version(a: Option<i64>, b: Option<i64>) -> (r: bool)
    ensures
        r == (a == b),
{
    match (a, b) {
        (None, None) => true,
        (Some(x), Some(y)) => x == y,
        _ => false,
    }
}

/// An answer with `hash` and `env` for each waiter of `senders`, in order.
fn deliver<V, W>(senders: Vec<W>, hash: u64, env: &Arc<V>) -> (ds: Vec<Delivery<V, W>>)
    ensures
        answers(ds@, senders@, hash, *env),
{
    let ghost ws = senders@;
    let mut back = reversed(senders);
    let mut ds: Vec<Delivery<V, W>> = Vec::new();
    while back.len() > 0
        invariant
            ds@.len() + back@.len() == ws.len(),
            forall|j: int| 0 <= j < back@.len() ==> back@[j] == ws[ws.len() - 1 - j],
            answers(ds@, ws.take(ds@.len() as int), hash, *env),
        decreases back.len(),
    {
        let w = back.pop().unwrap();
        ds.push(Delivery { waiter: w, hash, env: share(env) });
    }
    assert(ws.take(ds@.len() as int) =~= ws);
    ds
}

impl<A, V, W, C> VFS<A, V, W, C> {
    /// The client changes `path` by `edits`, applied one after the other,
    /// and gives the result `version`. Returns what has to be checked: the
    /// file, from the point where its text now differs. Without edits
    /// nothing happens; a change to a file that the store does not know is
    /// an error.
    pub fn change(&mut self, path: FileRef, version: i64, edits: &Vec<TextEdit>) -> (r: Result<
        Option<Trigger>,
        ServerError,
    >)
        requires
            old(self).wf(),
        ensures
            final(self).wf(),
            final(self)@ == change_state(old(self)@, path, version, edits@),
            match r {
                Ok(None) => edits@.len() == 0,
                Ok(Some(t)) => {
                    &&& edits@.len() > 0
                    &&& old(self)@.contains_key(path)
                    &&& t.file == path
                    &&& t.start matches Some(start)
                    &&& crate::text::diverges_at(
                        old(self)@[path].text,
                        final(self)@[path].text,
                        start as int,
                    )
                },
                Err(e) => {
                    &&& edits@.len() > 0
                    &&& !old(self)@.contains_key(path)
                    &&& e == ServerError::ChangedNonexistentFile
                },
            },
    {
        let ghost m = self@;
        proof {
            lemma_change_keeps_graph(m, path, version, edits@);
        }
        if edits.len() == 0 {
            return Ok(None);
        }
        match self.files.remove(&path) {
            None => {
                proof {
                    assert(self@ =~= m);
                }
                Err(ServerError::ChangedNonexistentFile)
            },
            Some(file) => {
                let VirtualFile { text, parsed, downstream } = file;
                let (start, new) = apply_changes(&text.1, edits);
                self.files.insert(path, VirtualFile { text: (Some(version), new), parsed, downstream });
                proof {
                    assert(self@ =~= change_state(m, path, version, edits@));
                }
                Ok(Some(Trigger { file: path, start: Some(start) }))
            },
        }
    }

    /// Whether closing `path` would take it out of the store, so that its
    /// published diagnostics have to be replaced by an empty list. The
    /// store stays as it is: a caller that retracts the diagnostics before
    /// it closes the file can leave the file where the retraction fails.
    pub fn closes(&self, path: FileRef) -> (retract: bool)
        requires
            self.wf(),
        ensures
            retract == retracted(self@, path),
    {
        match self.files.get(&path) {
            None => false,
            Some(file) => file.downstream.is_empty(),
        }
    }

    /// The client closes `path`. A file without dependents leaves the
    /// store, and no other file changes; one with dependents stays, as a
    /// file that the client has not open, and its dependents are checked
    /// again if it was open.
    pub fn close(&mut self, path: FileRef) -> (r: Closed<W>)
        requires
            old(self).wf(),
        ensures
            final(self).wf(),
            final(self)@ == close_state(old(self)@, path),
            r.retract == retracted(old(self)@, path),
            r.waiters@ == if retracted(old(self)@, path) {
                answered(old(self)@, path)
            } else {
                Seq::empty()
            },
            checks_each(
                r.todo@,
                if old(self)@.contains_key(path) && old(self)@[path].version is Some {
                    dependents(old(self)@, path)
                } else {
                    Set::empty()
                },
            ),
    {
        let ghost m = self@;
        let ghost none = Seq::<FileRef>::empty();
        proof {
            lemma_close_keeps_graph(m, path);
            assert(none.to_set() =~= Set::empty());
            assert(full_checks(none) =~= Seq::<Trigger>::empty());
            lemma_checks_each(none);
        }
        match self.files.remove(&path) {
            None => {
                proof {
                    assert(self@ =~= m);
                }
                Closed { retract: false, todo: Vec::new(), waiters: Vec::new() }
            },
            Some(file) => {
                if file.downstream.is_empty() {
                    let waiters = match file.parsed {
                        Some(FileCache::InProgress { senders, .. }) => senders,
                        _ => Vec::new(),
                    };
                    proof {
                        assert(m[path].downstream.is_empty());
                        assert(self@ =~= m.remove(path));
                    }
                    Closed { retract: true, todo: Vec::new(), waiters }
                } else {
                    let VirtualFile { text, parsed, downstream } = file;
                    let todo = if text.0.is_some() {
                        triggers_for(&downstream)
                    } else {
                        Vec::new()
                    };
                    proof {
                        assert(!m[path].downstream.is_empty());
                    }
                    self.files.insert(path, VirtualFile { text: (None, text.1), parsed, downstream });
                    proof {
                        assert(self@ =~= close_state(m, path));
                    }
                    Closed { retract: false, todo, waiters: Vec::new() }
                }
            },
        }
    }

    /// Whether the cached result of `path` can be reused as it is.
    pub fn recheck(&self, path: FileRef) -> (valid: bool)
        ensures
            valid == is_valid(self@, path),
    {
        match self.files.get(&path) {
            None => false,
            Some(file) => match &file.parsed {
                Some(FileCache::Ready { hash, deps, complete, .. }) => {
                    if !*complete {
                        return false;
                    }
                    let mut h = start_hash(file.text.0);
                    let mut i: usize = 0;
                    let ghost none = Seq::<u64>::empty();
                    proof {
                        assert(self@[path].slot == slot_view(file.parsed));
                        assert(recorded_deps(self@[path].slot) == deps@);
                        assert(dep_hashes(self@, deps@.take(0)) =~= none);
                        assert(h@ =~= hash_input(file.text.0, none));
                    }
                    while i < deps.len()
                        invariant
                            i <= deps.len(),
                            self@.contains_key(path),
                            self@[path].slot is Ready,
                            recorded_deps(self@[path].slot) == deps@,
                            forall|j: int|
                                0 <= j < i ==> (#[trigger] ready_hash(self@, deps@[j])) is Some,
                            h@ == hash_input(file.text.0, dep_hashes(self@, deps@.take(i as int))),
                        decreases deps.len() - i,
                    {
                        let d = deps[i];
                        match self.files.get(&d) {
                            None => {
                                assert(ready_hash(self@, deps@[i as int]) is None);
                                assert(!deps_ready(self@, deps@));
                                return false;
                            },
                            Some(dep) => match &dep.parsed {
                                Some(FileCache::Ready { hash: dep_hash, complete: dep_complete, .. }) => {
                                    if !*dep_complete {
                                        assert(ready_hash(self@, deps@[i as int]) is None);
                                        assert(!deps_ready(self@, deps@));
                                        return false;
                                    }
                                    hash_token(&mut h, *dep_hash);
                                    proof {
                                        let a = dep_hashes(self@, deps@.take(i as int));
                                        let b = dep_hashes(self@, deps@.take(i + 1));
                                        assert(ready_hash(self@, d) == Some(*dep_hash));
                                        assert(b =~= a.push(*dep_hash));
                                        assert(hash_input(file.text.0, b) =~= hash_input(
                                            file.text.0,
                                            a,
                                        ).push(spec_u64_to_le_bytes(*dep_hash)));
                                    }
                                },
                                _ => {
                                    assert(ready_hash(self@, deps@[i as int]) is None);
                                    assert(!deps_ready(self@, deps@));
                                    return false;
                                },
                            },
                        }
                        i = i + 1;
                    }
                    proof {
                        assert(deps@.take(i as int) =~= deps@);
                    }
                    h.finish() == *hash
                },
                _ => false,
            },
        }
    }

    /// Asks for the result of `path`. `start` is the offset from which the
    /// text has changed, where that is known, and `cancel` the flag under
    /// which a fresh computation would run. Returns `None` for a file that
    /// the store does not know.
    pub fn begin(&mut self, path: FileRef, start: Option<usize>, cancel: C) -> (out: Option<
        Outcome<A, V, C>,
    >)
        requires
            old(self).wf(),
        ensures
            final(self).wf(),
            final(self)@ == begin_state(old(self)@, path, start, cancel),
            match out {
                Some(o) => old(self)@.contains_key(path) && o@ == begin_step(
                    old(self)@,
                    path,
                    start,
                ),
                None => !old(self)@.contains_key(path),
            },
    {
        let ghost m = self@;
        proof {
            lemma_begin_keeps_graph(m, path, start, cancel);
        }
        let valid = self.recheck(path);
        let out;
        match self.files.remove(&path) {
            None => {
                proof {
                    assert(self@ =~= m);
                }
                out = None;
            },
            Some(file) => {
                let VirtualFile { text, parsed, downstream } = file;
                let v = text.0;
                let slot;
                match parsed {
                    None => {
                        slot =
                        FileCache::InProgress {
                            version: v,
                            cancel,
                            senders: Vec::new(),
                            deps: Vec::new(),
                        };
                        out =
                        Some(
                            Outcome::Start {
                                old_ast: None,
                                old_env: None,
                                old_deps: Vec::new(),
                                superseded: None,
                            },
                        );
                    },
                    Some(FileCache::InProgress { version, cancel: running, senders, deps }) => {
                        if same_version(version, v) {
                            slot = FileCache::InProgress { version, cancel: running, senders, deps };
                            out = Some(Outcome::Join);
                        } else {
                            let old_deps = copy_refs(&deps);
                            slot = FileCache::InProgress { version: v, cancel, senders, deps };
                            out =
                            Some(
                                Outcome::Start {
                                    old_ast: None,
                                    old_env: None,
                                    old_deps,
                                    superseded: Some(running),
                                },
                            );
                        }
                    },
                    Some(FileCache::Ready { hash, ast, errors, env, deps, complete }) => {
                        if valid {
                            let shared = share(&env);
                            slot = FileCache::Ready { hash, ast, errors, env, deps, complete };
                            out = Some(Outcome::AlreadyValid { hash, env: shared });
                        } else {
                            let old_deps = copy_refs(&deps);
                            slot =
                            FileCache::InProgress {
                                version: v,
                                cancel,
                                senders: Vec::new(),
                                deps,
                            };
                            out =
                            Some(
                                Outcome::Start {
                                    old_ast: match start {
                                        Some(s) => Some((s, ast)),
                                        None => None,
                                    },
                                    old_env: Some((errors, env)),
                                    old_deps,
                                    superseded: None,
                                },
                            );
                        }
                    },
                }
                self.files.insert(path, VirtualFile { text, parsed: Some(slot), downstream });
                proof {
                    assert(self@[path].slot == begin_slot(m, path, start, cancel));
                    assert(self@ =~= begin_state(m, path, start, cancel));
                }
            },
        }
        proof {
        }
        out
    }

    /// Queues `w` at `path`, to be answered when the running computation
    /// hands in its result. Where no computation is running for `path`, `w`
    /// is handed back.
    pub fn join(&mut self, path: FileRef, w: W) -> (rejected: Option<W>)
        requires
            old(self).wf(),
        ensures
            final(self).wf(),
            final(self)@ == join_state(old(self)@, path, w),
            rejected == if old(self)@.contains_key(path) && old(self)@[path].slot is InProgress {
                None
            } else {
                Some(w)
            },
    {
        let ghost m = self@;
        proof {
            lemma_join_keeps_graph(m, path, w);
        }
        let rejected;
        match self.files.remove(&path) {
            None => {
                proof {
                    assert(self@ =~= m);
                }
                rejected = Some(w);
            },
            Some(file) => {
                let VirtualFile { text, parsed, downstream } = file;
                let slot;
                match parsed {
                    Some(FileCache::InProgress { version, cancel, senders, deps }) => {
                        let mut senders = senders;
                        senders.push(w);
                        slot = Some(FileCache::InProgress { version, cancel, senders, deps });
                        rejected = None;
                    },
                    other => {
                        slot = other;
                        rejected = Some(w);
                    },
                }
                self.files.insert(path, VirtualFile { text, parsed: slot, downstream });
                proof {
                    assert(self@ =~= join_state(m, path, w));
                }
            },
        }
        proof {
        }
        rejected
    }

    /// Hands in the result of a computation for `path` that ran on the text
    /// of `version` and was given the fingerprints `toks` by what it
    /// consulted: the hash of the result is the content hash over both, and
    /// all else is as in [`VFS::finish`]. A result whose version is the
    /// current one and whose fingerprints are the hashes that its
    /// dependencies offer is then valid, unless the computation was
    /// cancelled.
    pub fn complete(
        &mut self,
        path: FileRef,
        version: Option<i64>,
        toks: &Vec<u64>,
        ast: Arc<A>,
        errors: Vec<ElabError>,
        deps: Vec<FileRef>,
        env: Arc<V>,
        cancelled: bool,
    ) -> (r: Finished<V, W>)
        requires
            old(self).wf(),
            knows_all(old(self)@, deps@),
        ensures
            final(self).wf(),
            r.hash == spec_content_hash(version, toks@),
            r.env == env,
            final(self)@ == finish_state(
                old(self)@,
                path,
                spec_content_hash(version, toks@),
                ast,
                errors@,
                deps@,
                env,
                cancelled,
            ),
            answers(
                r.deliveries@,
                answered(old(self)@, path),
                spec_content_hash(version, toks@),
                env,
            ),
            r.publish == published(old(self)@, path, cancelled),
            checks_each(r.todo@, dependents(final(self)@, path)),
    {
        let hash = content_hash(version, toks);
        self.finish(path, hash, ast, errors, deps, env, cancelled)
    }

    /// Hands in the result of a computation for `path`. The slot becomes
    /// ready, complete unless the computation was `cancelled`; the waiters
    /// that it held are answered; the edges of the file follow `deps`. For
    /// a file that the store does not know, nothing happens.
    pub fn finish(
        &mut self,
        path: FileRef,
        hash: u64,
        ast: Arc<A>,
        errors: Vec<ElabError>,
        deps: Vec<FileRef>,
        env: Arc<V>,
        cancelled: bool,
    ) -> (r: Finished<V, W>)
        requires
            old(self).wf(),
            knows_all(old(self)@, deps@),
        ensures
            final(self).wf(),
            r.hash == hash,
            r.env == env,
            final(self)@ == finish_state(
                old(self)@,
                path,
                hash,
                ast,
                errors@,
                deps@,
                env,
                cancelled,
            ),
            answers(r.deliveries@, answered(old(self)@, path), hash, env),
            r.publish == published(old(self)@, path, cancelled),
            checks_each(r.todo@, dependents(final(self)@, path)),
    {
        let ghost m = self@;
        match self.files.remove(&path) {
            None => {
                proof {
                    assert(self@ =~= m);
                    let none = Seq::<FileRef>::empty();
                    assert(none.to_set() =~= Set::empty());
                    assert(full_checks(none) =~= Seq::<Trigger>::empty());
                    lemma_checks_each(none);
                }
                Finished { hash, env, deliveries: Vec::new(), publish: false, todo: Vec::new() }
            },
            Some(file) => {
                let VirtualFile { text, parsed, downstream } = file;
                let senders;
                let old_deps;
                match parsed {
                    None => {
                        senders = Vec::new();
                        old_deps = Vec::new();
                    },
                    Some(FileCache::InProgress { senders: held, deps: recorded, .. }) => {
                        senders = held;
                        old_deps = recorded;
                    },
                    Some(FileCache::Ready { deps: recorded, .. }) => {
                        senders = Vec::new();
                        old_deps = recorded;
                    },
                }
                proof {
                    assert(senders@ == waiters_of(m[path].slot));
                    assert(old_deps@ == recorded_deps(m[path].slot));
                }
                let stored = copy_refs(&deps);
                let slot = FileCache::Ready {
                    hash,
                    ast,
                    errors,
                    env: share(&env),
                    deps: stored,
                    complete: !cancelled,
                };
                self.files.insert(path, VirtualFile { text, parsed: Some(slot), downstream });
                let ghost m1 = self@;
                proof {
                    assert forall|i: int| 0 <= i < old_deps@.len() implies self@.contains_key(
                        #[trigger] old_deps@[i],
                    ) by {
                        assert(imports(m, path, old_deps@[i]));
                        assert(feeds(m, old_deps@[i], path));
                    }
                }
                self.update_downstream(&old_deps, &deps, path);
                proof {
                    assert(m1.contains_key(path));
                    assert(self@.contains_key(path));
                    assert(self.files@.contains_key(path));
                }
                let deliveries = deliver(senders, hash, &env);
                let todo = match self.files.get(&path) {
                    Some(file) => triggers_for(&file.downstream),
                    None => Vec::new(),
                };
                proof {
                    assert(self@ =~= finish_state(
                        m,
                        path,
                        hash,
                        ast,
                        errors@,
                        deps@,
                        env,
                        cancelled,
                    ));
                    lemma_finish_keeps_graph(m, path, hash, ast, errors@, deps@, env, cancelled);
                    assert(answers(deliveries@, waiters_of(m[path].slot), hash, env));
                    assert(checks_each(todo@, self@[path].downstream));
                }
                Finished { hash, env, deliveries, publish: !cancelled, todo }
            },
        }
    }
}

impl<A, V, W, C> VFS<A, V, W, C> {
    /// Whether the store knows every file of `deps`.
    pub fn knows_all(&self, deps: &Vec<FileRef>) -> (r: bool)
        ensures
            r == knows_all(self@, deps@),
    {
        let mut i: usize = 0;
        while i < deps.len()
            invariant
                i <= deps.len(),
                forall|j: int| 0 <= j < i ==> self@.contains_key(#[trigger] deps@[j]),
            decreases deps.len() - i,
        {
            if !self.files.contains_key(&deps[i]) {
                assert(!self@.contains_key(deps@[i as int]));
                return false;
            }
            i = i + 1;
        }
        true
    }

    /// A computation for `path` has failed and hands in nothing. A slot in
    /// progress becomes empty again and loses the edges that it kept;
    /// returns the waiters that it held, which are owed an answer all the
    /// same. Any other slot stays as it is, and no waiter is returned.
    pub fn abort(&mut self, path: FileRef) -> (waiters: Vec<W>)
        requires
            old(self).wf(),
        ensures
            final(self).wf(),
            final(self)@ == abort_state(old(self)@, path),
            waiters@ == answered(old(self)@, path),
    {
        let ghost m = self@;
        proof {
            lemma_abort_keeps_graph(m, path);
        }
        match self.files.remove(&path) {
            None => {
                proof {
                    assert(self@ =~= m);
                }
                Vec::new()
            },
            Some(file) => {
                let VirtualFile { text, parsed, downstream } = file;
                match parsed {
                    Some(FileCache::InProgress { version: _, cancel: _, senders, deps }) => {
                        self.files.insert(path, VirtualFile { text, parsed: None, downstream });
                        let ghost m1 = self@;
                        proof {
                            assert forall|i: int| 0 <= i < deps@.len() implies self@.contains_key(
                                #[trigger] deps@[i],
                            ) by {
                                assert(imports(m, path, deps@[i]));
                                assert(feeds(m, deps@[i], path));
                            }
                        }
                        let no_deps: Vec<FileRef> = Vec::new();
                        self.update_downstream(&deps, &no_deps, path);
                        proof {
                            assert(self@ =~= abort_state(m, path));
                        }
                        senders
                    },
                    other => {
                        self.files.insert(path, VirtualFile { text, parsed: other, downstream });
                        proof {
                            assert(self@ =~= m);
                        }
                        Vec::new()
                    },
                }
            },
        }
    }
}

} // verus!
