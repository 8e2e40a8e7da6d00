//! What the store guarantees across several events.

use crate::hash::spec_content_hash;
use crate::model::{
    answered, begin_state, begin_step, close_state, dep_hashes, dependents, deps_ready, feeds,
    finish_state, graph_wf, imports, is_valid, join_state, published, ready_hash, retracted,
    FileState, Files, Slot, Step,
};
use crate::util::{ElabError, FileRef};
use std::sync::Arc;
use vstd::prelude::*;

verus! {

/// The store after the waiters `ws` were queued at `f`, one after the other.
pub open spec fn join_all<A, V, W, C>(m: Files<A, V, W, C>, f: FileRef, ws: Seq<W>) -> Files<
    A,
    V,
    W,
    C,
>
    decreases ws.len(),
{
    if ws.len() == 0 {
        m
    } else {
        join_state(join_all(m, f, ws.drop_last()), f, ws.last())
    }
}

/// The slot of `f` holds a computation in progress for the current version
/// of `f`.
pub open spec fn in_progress_now<A, V, W, C>(m: Files<A, V, W, C>, f: FileRef) -> bool {
    &&& m.contains_key(f)
    &&& m[f].slot matches Slot::InProgress { version, .. }
    &&& version == m[f].version
}

/// Requests that arrive while a computation for the current version of a
/// file is in progress start no second computation: each is told to join,
/// the store stays as it is, and however many waiters are queued, the
/// computation stays in progress and each of them is among those answered
/// when it hands in its one result, after those queued before and in the
/// order of arrival.
pub proof fn lemma_dedup<A, V, W, C>(
    m: Files<A, V, W, C>,
    f: FileRef,
    start: Option<usize>,
    cancel: C,
    ws: Seq<W>,
)
    requires
        in_progress_now(m, f),
    ensures
        begin_step(m, f, start) is Join,
        begin_state(m, f, start, cancel) == m,
        in_progress_now(join_all(m, f, ws), f),
        answered(join_all(m, f, ws), f) == answered(m, f) + ws,
    decreases ws.len(),
{
    assert(begin_state(m, f, start, cancel) =~= m);
    if ws.len() == 0 {
        assert(answered(m, f) + ws =~= answered(m, f));
    } else {
        lemma_dedup(m, f, start, cancel, ws.drop_last());
        assert(answered(m, f) + ws =~= (answered(m, f) + ws.drop_last()).push(ws.last()));
    }
}

/// A result that was handed in without cancellation, with the content hash
/// of the file's version over the hashes that its dependencies offer, is
/// valid: the next request for the file, with nothing changed in between,
/// is answered from the cache with that hash and environment, and leaves
/// the store as it is. The file must not be its own dependency.
///
/// [`crate::vfs::VFS::complete`] hands in that hash where the computation
/// ran on the current version and was given the current hashes of its
/// dependencies as fingerprints.
pub proof fn lemma_validity_idempotence<A, V, W, C>(
    m: Files<A, V, W, C>,
    f: FileRef,
    ast: Arc<A>,
    errors: Seq<ElabError>,
    deps: Seq<FileRef>,
    env: Arc<V>,
    start: Option<usize>,
    cancel: C,
)
    requires
        m.contains_key(f),
        deps_ready(m, deps),
        !deps.contains(f),
    ensures
        ({
            let hash = spec_content_hash(m[f].version, dep_hashes(m, deps));
            let n = finish_state(m, f, hash, ast, errors, deps, env, false);
            &&& is_valid(n, f)
            &&& begin_step(n, f, start) == (Step::<A, V, C>::AlreadyValid { hash, env })
            &&& begin_state(n, f, start, cancel) == n
        }),
{
    let hash = spec_content_hash(m[f].version, dep_hashes(m, deps));
    let n = finish_state(m, f, hash, ast, errors, deps, env, false);
    assert forall|i: int| 0 <= i < deps.len() implies ready_hash(n, deps[i]) == #[trigger] ready_hash(
        m,
        deps[i],
    ) by {
        assert(deps.contains(deps[i]));
    }
    assert(deps_ready(n, deps)) by {
        assert forall|i: int| 0 <= i < deps.len() implies (#[trigger] ready_hash(n, deps[i])) is Some by {
            assert(ready_hash(m, deps[i]) is Some);
        }
    }
    assert(dep_hashes(n, deps) =~= dep_hashes(m, deps)) by {
        assert forall|i: int| 0 <= i < deps.len() implies dep_hashes(n, deps)[i] == dep_hashes(
            m,
            deps,
        )[i] by {
            assert(ready_hash(m, deps[i]) is Some);
        }
    }
    assert(begin_state(n, f, start, cancel) =~= n);
}

/// A request for a file whose slot holds a computation for another version
/// starts a fresh computation: the flag of the running one is handed out to
/// be raised, and the slot, now in progress for the current version, keeps
/// every waiter. When the fresh computation hands in its result, not
/// cancelled and before the superseded one, those waiters are answered with
/// it, its errors are published, and the slot holds it as complete.
pub proof fn lemma_cancel_and_supersede<A, V, W, C>(
    m: Files<A, V, W, C>,
    f: FileRef,
    start: Option<usize>,
    cancel: C,
    hash: u64,
    ast: Arc<A>,
    errors: Seq<ElabError>,
    deps: Seq<FileRef>,
    env: Arc<V>,
)
    requires
        m.contains_key(f),
        m[f].slot is InProgress,
        m[f].slot->InProgress_version != m[f].version,
    ensures
        ({
            let m1 = begin_state(m, f, start, cancel);
            let m2 = finish_state(m1, f, hash, ast, errors, deps, env, false);
            &&& begin_step(m, f, start) matches Step::Start { superseded, .. }
            &&& superseded == Some(m[f].slot->InProgress_cancel)
            &&& in_progress_now(m1, f)
            &&& m1[f].slot->InProgress_cancel == cancel
            &&& answered(m1, f) == answered(m, f)
            &&& published(m1, f, false)
            &&& m2[f].slot == (Slot::<A, V, W, C>::Ready { hash, ast, errors, env, deps, complete: true })
        }),
{
}

/// When a result is handed in for a file, every other file that imports it
/// is among those that are checked again.
pub proof fn lemma_downstream_propagation<A, V, W, C>(
    m: Files<A, V, W, C>,
    a: FileRef,
    b: FileRef,
    hash: u64,
    ast: Arc<A>,
    errors: Seq<ElabError>,
    deps: Seq<FileRef>,
    env: Arc<V>,
    cancelled: bool,
)
    requires
        graph_wf(m),
        imports(m, a, b),
        a != b,
    ensures
        dependents(finish_state(m, b, hash, ast, errors, deps, env, cancelled), b).contains(a),
{
    assert(feeds(m, b, a));
}

/// When a result is handed in for `a` whose dependency list does not name
/// `b`, then `a` is no dependent of `b` any more, and a result handed in for
/// `b` later does not have `a` checked again. This holds where `a` stands
/// among the dependents of `b` through its recorded dependency list, and not
/// from a time before it left the store.
pub proof fn lemma_edge_pruning<A, V, W, C>(
    m: Files<A, V, W, C>,
    a: FileRef,
    b: FileRef,
    hash: u64,
    ast: Arc<A>,
    errors: Seq<ElabError>,
    deps: Seq<FileRef>,
    env: Arc<V>,
    cancelled: bool,
    hash_b: u64,
    ast_b: Arc<A>,
    errors_b: Seq<ElabError>,
    deps_b: Seq<FileRef>,
    env_b: Arc<V>,
    cancelled_b: bool,
)
    requires
        graph_wf(m),
        m.contains_key(a),
        a != b,
        !deps.contains(b),
        feeds(m, b, a) ==> imports(m, a, b),
    ensures
        ({
            let n = finish_state(m, a, hash, ast, errors, deps, env, cancelled);
            &&& !dependents(n, b).contains(a)
            &&& !dependents(
                finish_state(n, b, hash_b, ast_b, errors_b, deps_b, env_b, cancelled_b),
                b,
            ).contains(a)
        }),
{
    if m.contains_key(b) && m[b].downstream.contains(a) {
        assert(feeds(m, b, a));
        assert(imports(m, a, b));
    }
}

/// Closing a file that has dependents keeps it in the store with its text,
/// its slot and its dependents, so that each dependent still finds it, and
/// retracts nothing. Closing one without dependents removes it, changes no
/// other file, and retracts its diagnostics.
pub proof fn lemma_close_with_dependents<A, V, W, C>(m: Files<A, V, W, C>, f: FileRef)
    requires
        graph_wf(m),
        m.contains_key(f),
    ensures
        ({
            let n = close_state(m, f);
            if m[f].downstream.is_empty() {
                &&& n == m.remove(f)
                &&& retracted(m, f)
            } else {
                &&& n.contains_key(f)
                &&& n[f] == (FileState { version: None, ..m[f] })
                &&& !retracted(m, f)
                &&& forall|a: FileRef| #[trigger] imports(m, a, f) ==> imports(n, a, f)
            }
        }),
{
}

} // verus!
