//! The mathematical model of the file store: what each file holds, when the
//! import graph is consistent, and how each event changes the store.

use crate::hash::spec_content_hash;
use crate::text::{spliced_all, TextEdit};
use crate::util::{ElabError, FileRef};
use std::sync::Arc;
use vstd::prelude::*;

verus! {

/// The cache slot of a file.
///
/// `deps` is in both states the dependency list whose edges are currently
/// recorded in the import graph: for a ready slot the files that were
/// consulted to produce it, for a slot in progress the list of the result it
/// is about to replace.
pub enum Slot<A, V, W, C> {
    /// No result was ever computed.
    Empty,
    /// A computation is running for `version`; `waiters` want its result.
    InProgress { version: Option<i64>, cancel: C, waiters: Seq<W>, deps: Seq<FileRef> },
    /// The last computed result. One with `complete == false` was produced
    /// under cancellation and is never valid for reuse.
    Ready {
        hash: u64,
        ast: Arc<A>,
        errors: Seq<ElabError>,
        env: Arc<V>,
        deps: Seq<FileRef>,
        complete: bool,
    },
}

/// What the store holds of one file.
pub struct FileState<A, V, W, C> {
    /// The version the client gave the text; `None` for a file that the
    /// client has not open.
    pub version: Option<i64>,
    pub text: Seq<u8>,
    pub slot: Slot<A, V, W, C>,
    /// The files that are checked again when this file has a new result:
    /// every file whose recorded dependency list names this one, and a
    /// file that named it before it left the store, until that file hands
    /// in a result again.
    pub downstream: Set<FileRef>,
}

/// The store: every known file with its state.
pub type Files<A, V, W, C> = Map<FileRef, FileState<A, V, W, C>>;

/// The dependency list whose edges the graph records for a slot.
pub open spec fn recorded_deps<A, V, W, C>(s: Slot<A, V, W, C>) -> Seq<FileRef> {
    match s {
        Slot::Empty => Seq::empty(),
        Slot::InProgress { deps, .. } => deps,
        Slot::Ready { deps, .. } => deps,
    }
}

/// The waiters that a slot holds.
pub open spec fn waiters_of<A, V, W, C>(s: Slot<A, V, W, C>) -> Seq<W> {
    match s {
        Slot::InProgress { waiters, .. } => waiters,
        _ => Seq::empty(),
    }
}

/// `f` names `d` in its recorded dependency list.
pub open spec fn imports<A, V, W, C>(m: Files<A, V, W, C>, f: FileRef, d: FileRef) -> bool {
    m.contains_key(f) && recorded_deps(m[f].slot).contains(d)
}

/// `f` is in the downstream set of `d`.
pub open spec fn feeds<A, V, W, C>(m: Files<A, V, W, C>, d: FileRef, f: FileRef) -> bool {
    m.contains_key(d) && m[d].downstream.contains(f)
}

/// The import graph is consistent: every file that a recorded dependency
/// list names is in the store and has the file with that list among its
/// dependents.
///
/// The converse is not asked: a file that left the store, or came back to
/// it, may still stand among the dependents of what it once imported, until
/// its next result is handed in.
pub open spec fn graph_wf<A, V, W, C>(m: Files<A, V, W, C>) -> bool {
    &&& m.dom().finite()
    &&& forall|f: FileRef, d: FileRef| #[trigger] imports(m, f, d) ==> feeds(m, d, f)
}

/// The hash that a dependency currently offers: that of a ready and complete
/// slot, and nothing otherwise.
pub open spec fn ready_hash<A, V, W, C>(m: Files<A, V, W, C>, d: FileRef) -> Option<u64> {
    if m.contains_key(d) {
        match m[d].slot {
            Slot::Ready { hash, complete, .. } => if complete {
                Some(hash)
            } else {
                None
            },
            _ => None,
        }
    } else {
        None
    }
}

/// Every file of `deps` offers a hash.
pub open spec fn deps_ready<A, V, W, C>(m: Files<A, V, W, C>, deps: Seq<FileRef>) -> bool {
    forall|i: int| 0 <= i < deps.len() ==> (#[trigger] ready_hash(m, deps[i])) is Some
}

/// The hashes that the files of `deps` offer, in order.
pub open spec fn dep_hashes<A, V, W, C>(m: Files<A, V, W, C>, deps: Seq<FileRef>) -> Seq<u64> {
    Seq::new(deps.len(), |i: int| ready_hash(m, deps[i]).unwrap())
}

/// The slot of `f` can be reused as it is: it is ready and complete, every
/// recorded dependency offers a hash, and the hash over the file's version
/// and those hashes is the stored one.
pub open spec fn is_valid<A, V, W, C>(m: Files<A, V, W, C>, f: FileRef) -> bool {
    &&& m.contains_key(f)
    &&& m[f].slot matches Slot::Ready { hash, deps, complete, .. }
    &&& complete
    &&& deps_ready(m, deps)
    &&& spec_content_hash(m[f].version, dep_hashes(m, deps)) == hash
}

/// What a caller that asks for the result of a file has to do.
pub enum Step<A, V, C> {
    /// The cached result is valid.
    AlreadyValid { hash: u64, env: Arc<V> },
    /// A computation for the same version is running: wait for it.
    Join,
    /// Compute a fresh result. `old_ast` and `old_env` offer the previous
    /// result for reuse, `old_deps` is its dependency list, and `superseded`
    /// is the cancel flag of a running computation for another version,
    /// which has to be raised.
    Start {
        old_ast: Option<(usize, Arc<A>)>,
        old_env: Option<(Seq<ElabError>, Arc<V>)>,
        old_deps: Seq<FileRef>,
        superseded: Option<C>,
    },
}

/// The answer of the store to a request for the result of `f`, which it
/// knows; `start` is the offset from which the text has changed, if known.
pub open spec fn begin_step<A, V, W, C>(
    m: Files<A, V, W, C>,
    f: FileRef,
    start: Option<usize>,
) -> Step<A, V, C> {
    match m[f].slot {
        Slot::Empty => Step::Start {
            old_ast: None,
            old_env: None,
            old_deps: Seq::empty(),
            superseded: None,
        },
        Slot::InProgress { version, cancel, waiters, deps } => if version == m[f].version {
            Step::Join
        } else {
            Step::Start { old_ast: None, old_env: None, old_deps: deps, superseded: Some(cancel) }
        },
        Slot::Ready { hash, ast, errors, env, deps, complete } => if is_valid(m, f) {
            Step::AlreadyValid { hash, env }
        } else {
            Step::Start {
                old_ast: match start {
                    Some(s) => Some((s, ast)),
                    None => None,
                },
                old_env: Some((errors, env)),
                old_deps: deps,
                superseded: None,
            }
        },
    }
}

/// The slot of `f` after a request for its result: where a fresh computation
/// starts, the slot is in progress for the current version under the flag
/// `cancel`, and keeps the waiters and the recorded dependency list.
pub open spec fn begin_slot<A, V, W, C>(
    m: Files<A, V, W, C>,
    f: FileRef,
    start: Option<usize>,
    cancel: C,
) -> Slot<A, V, W, C> {
    if begin_step(m, f, start) is Start {
        Slot::InProgress {
            version: m[f].version,
            cancel,
            waiters: waiters_of(m[f].slot),
            deps: recorded_deps(m[f].slot),
        }
    } else {
        m[f].slot
    }
}

/// The store after a request for the result of `f`.
pub open spec fn begin_state<A, V, W, C>(
    m: Files<A, V, W, C>,
    f: FileRef,
    start: Option<usize>,
    cancel: C,
) -> Files<A, V, W, C> {
    if m.contains_key(f) {
        m.insert(f, FileState { slot: begin_slot(m, f, start, cancel), ..m[f] })
    } else {
        m
    }
}

/// The store after `w` has been queued at `f`: a slot in progress gets one
/// more waiter, at the end; any other slot takes none.
pub open spec fn join_state<A, V, W, C>(m: Files<A, V, W, C>, f: FileRef, w: W) -> Files<
    A,
    V,
    W,
    C,
> {
    if m.contains_key(f) {
        match m[f].slot {
            Slot::InProgress { version, cancel, waiters, deps } => m.insert(
                f,
                FileState {
                    slot: Slot::InProgress { version, cancel, waiters: waiters.push(w), deps },
                    ..m[f]
                },
            ),
            _ => m,
        }
    } else {
        m
    }
}

/// The downstream set of `d` after the dependency list of `to` went from
/// `old_deps` to `deps`: `to` leaves it where `d` was dropped from the list,
/// and enters it where `d` is new in the list.
pub open spec fn retargeted<A, V, W, C>(
    m: Files<A, V, W, C>,
    old_deps: Seq<FileRef>,
    deps: Seq<FileRef>,
    to: FileRef,
    d: FileRef,
) -> Set<FileRef> {
    if old_deps.contains(d) && !deps.contains(d) {
        m[d].downstream.remove(to)
    } else if deps.contains(d) && !old_deps.contains(d) {
        m[d].downstream.insert(to)
    } else {
        m[d].downstream
    }
}

/// The store after the edges of `to` were moved from `old_deps` to `deps`.
pub open spec fn update_downstream_state<A, V, W, C>(
    m: Files<A, V, W, C>,
    old_deps: Seq<FileRef>,
    deps: Seq<FileRef>,
    to: FileRef,
) -> Files<A, V, W, C> {
    Map::new(
        |d: FileRef| m.contains_key(d),
        |d: FileRef| FileState { downstream: retargeted(m, old_deps, deps, to, d), ..m[d] },
    )
}

/// The store after a computation for `f` has handed in its result: the slot
/// is ready, complete unless the computation was cancelled, and the edges of
/// `f` follow the new dependency list. For a file that the store does not
/// know, nothing changes.
pub open spec fn finish_state<A, V, W, C>(
    m: Files<A, V, W, C>,
    f: FileRef,
    hash: u64,
    ast: Arc<A>,
    errors: Seq<ElabError>,
    deps: Seq<FileRef>,
    env: Arc<V>,
    cancelled: bool,
) -> Files<A, V, W, C> {
    if m.contains_key(f) {
        let m1 = update_downstream_state(m, recorded_deps(m[f].slot), deps, f);
        m1.insert(
            f,
            FileState {
                slot: Slot::Ready { hash, ast, errors, env, deps, complete: !cancelled },
                ..m1[f]
            },
        )
    } else {
        m
    }
}

/// The store after a computation for `f` has failed: a slot in progress is
/// empty again, and the edges that it kept are gone. Any other slot stays.
pub open spec fn abort_state<A, V, W, C>(m: Files<A, V, W, C>, f: FileRef) -> Files<A, V, W, C> {
    if m.contains_key(f) && m[f].slot is InProgress {
        let m1 = update_downstream_state(m, recorded_deps(m[f].slot), Seq::empty(), f);
        m1.insert(f, FileState { slot: Slot::Empty, ..m1[f] })
    } else {
        m
    }
}

/// The dependency list after `dep` was consulted: a file that it does not
/// name yet stands at its end.
pub open spec fn recorded_with(deps: Seq<FileRef>, dep: FileRef) -> Seq<FileRef> {
    if deps.contains(dep) {
        deps
    } else {
        deps.push(dep)
    }
}

/// The store knows every file of `deps`.
pub open spec fn knows_all<A, V, W, C>(m: Files<A, V, W, C>, deps: Seq<FileRef>) -> bool {
    forall|i: int| 0 <= i < deps.len() ==> m.contains_key(#[trigger] deps[i])
}

/// The waiters that are answered when a computation for `f` hands in its
/// result: those that the slot of `f` holds, in the order in which they were
/// queued.
pub open spec fn answered<A, V, W, C>(m: Files<A, V, W, C>, f: FileRef) -> Seq<W> {
    if m.contains_key(f) {
        waiters_of(m[f].slot)
    } else {
        Seq::empty()
    }
}

/// Whether the errors of a result handed in for `f` are published as its
/// diagnostics: those of a known file are, unless the computation was
/// cancelled.
pub open spec fn published<A, V, W, C>(m: Files<A, V, W, C>, f: FileRef, cancelled: bool) -> bool {
    m.contains_key(f) && !cancelled
}

/// The files that are checked again after a result for `f` was handed in or
/// `f` has changed: its dependents.
pub open spec fn dependents<A, V, W, C>(m: Files<A, V, W, C>, f: FileRef) -> Set<FileRef> {
    if m.contains_key(f) {
        m[f].downstream
    } else {
        Set::empty()
    }
}

/// Whether closing `f` retracts its published diagnostics: it does for a
/// known file without dependents, which leaves the store.
pub open spec fn retracted<A, V, W, C>(m: Files<A, V, W, C>, f: FileRef) -> bool {
    m.contains_key(f) && m[f].downstream.is_empty()
}

/// The store after the client has opened `f` with `version` and `text`: a
/// known file gets both and keeps its slot and its dependents, an unknown
/// one starts with an empty slot.
pub open spec fn open_state<A, V, W, C>(
    m: Files<A, V, W, C>,
    f: FileRef,
    version: Option<i64>,
    text: Seq<u8>,
) -> Files<A, V, W, C> {
    if m.contains_key(f) {
        m.insert(f, FileState { version, text, ..m[f] })
    } else {
        m.insert(f, FileState { version, text, slot: Slot::Empty, downstream: Set::empty() })
    }
}

/// The store after the client has changed `f` by `edits` and given the
/// result `version`: the text of a known file is edited and takes the
/// version. Without edits, and for an unknown file, nothing changes.
pub open spec fn change_state<A, V, W, C>(
    m: Files<A, V, W, C>,
    f: FileRef,
    version: i64,
    edits: Seq<TextEdit>,
) -> Files<A, V, W, C> {
    if edits.len() > 0 && m.contains_key(f) {
        m.insert(
            f,
            FileState { version: Some(version), text: spliced_all(m[f].text, edits), ..m[f] },
        )
    } else {
        m
    }
}

/// The store after the client has closed `f`: a file without dependents
/// leaves the store, and nothing else changes; one with dependents stays
/// as a file that the client has not open.
pub open spec fn close_state<A, V, W, C>(m: Files<A, V, W, C>, f: FileRef) -> Files<A, V, W, C> {
    if !m.contains_key(f) {
        m
    } else if m[f].downstream.is_empty() {
        m.remove(f)
    } else {
        m.insert(f, FileState { version: None, ..m[f] })
    }
}

} // verus!
