//! Every event keeps the import graph consistent.

use crate::model::{
    abort_state, begin_state, change_state, close_state, feeds, finish_state, graph_wf, imports,
    join_state, open_state, recorded_deps, update_downstream_state, Files,
};
use crate::text::TextEdit;
use crate::util::{ElabError, FileRef};
use std::sync::Arc;
use vstd::prelude::*;

verus! {

/// Opening a file keeps the graph consistent.
pub proof fn lemma_open_keeps_graph<A, V, W, C>(
    m: Files<A, V, W, C>,
    f: FileRef,
    version: Option<i64>,
    text: Seq<u8>,
)
    requires
        graph_wf(m),
    ensures
        graph_wf(open_state(m, f, version, text)),
{
    let n = open_state(m, f, version, text);
    assert(n.dom() =~= m.dom().insert(f));
    assert forall|g: FileRef, d: FileRef| #[trigger] imports(n, g, d) implies feeds(n, d, g) by {
        if g == f && !m.contains_key(f) {
            assert(recorded_deps(n[f].slot) =~= Seq::empty());
        } else {
            assert(imports(m, g, d));
            assert(feeds(m, d, g));
        }
    }
}

/// Changing the text of a file keeps the graph consistent.
pub proof fn lemma_change_keeps_graph<A, V, W, C>(
    m: Files<A, V, W, C>,
    f: FileRef,
    version: i64,
    edits: Seq<TextEdit>,
)
    requires
        graph_wf(m),
    ensures
        graph_wf(change_state(m, f, version, edits)),
{
    let n = change_state(m, f, version, edits);
    if edits.len() > 0 && m.contains_key(f) {
        assert(n.dom() =~= m.dom());
        assert forall|g: FileRef, d: FileRef| #[trigger] imports(n, g, d) implies feeds(n, d, g) by {
            assert(imports(m, g, d));
            assert(feeds(m, d, g));
        }
    }
}

/// A request for a file's result keeps the graph consistent.
pub proof fn lemma_begin_keeps_graph<A, V, W, C>(
    m: Files<A, V, W, C>,
    f: FileRef,
    start: Option<usize>,
    cancel: C,
)
    requires
        graph_wf(m),
    ensures
        graph_wf(begin_state(m, f, start, cancel)),
{
    let n = begin_state(m, f, start, cancel);
    if m.contains_key(f) {
        assert(n.dom() =~= m.dom());
        assert(recorded_deps(n[f].slot) == recorded_deps(m[f].slot));
        assert forall|g: FileRef, d: FileRef| #[trigger] imports(n, g, d) implies feeds(n, d, g) by {
            assert(imports(m, g, d));
            assert(feeds(m, d, g));
        }
    }
}

/// Queueing a waiter keeps the graph consistent.
pub proof fn lemma_join_keeps_graph<A, V, W, C>(m: Files<A, V, W, C>, f: FileRef, w: W)
    requires
        graph_wf(m),
    ensures
        graph_wf(join_state(m, f, w)),
{
    let n = join_state(m, f, w);
    if m.contains_key(f) {
        assert(n.dom() =~= m.dom());
        assert(recorded_deps(n[f].slot) == recorded_deps(m[f].slot));
        assert forall|g: FileRef, d: FileRef| #[trigger] imports(n, g, d) implies feeds(n, d, g) by {
            assert(imports(m, g, d));
            assert(feeds(m, d, g));
        }
    }
}

/// Handing in a result keeps the graph consistent, provided every file of
/// the new dependency list is in the store.
pub proof fn lemma_finish_keeps_graph<A, V, W, C>(
    m: Files<A, V, W, C>,
    f: FileRef,
    hash: u64,
    ast: Arc<A>,
    errors: Seq<ElabError>,
    deps: Seq<FileRef>,
    env: Arc<V>,
    cancelled: bool,
)
    requires
        graph_wf(m),
        forall|i: int| 0 <= i < deps.len() ==> m.contains_key(#[trigger] deps[i]),
    ensures
        graph_wf(finish_state(m, f, hash, ast, errors, deps, env, cancelled)),
{
    if !m.contains_key(f) {
        return ;
    }
    let old_deps = recorded_deps(m[f].slot);
    let m1 = update_downstream_state(m, old_deps, deps, f);
    let n = finish_state(m, f, hash, ast, errors, deps, env, cancelled);
    assert(m1.dom() =~= m.dom());
    assert(n.dom() =~= m.dom());
    assert forall|g: FileRef, d: FileRef| #[trigger] imports(n, g, d) implies feeds(n, d, g) by {
        if g == f {
            assert(deps.contains(d));
            if old_deps.contains(d) {
                assert(imports(m, f, d));
                assert(feeds(m, d, f));
            }
        } else {
            assert(imports(m, g, d));
            assert(feeds(m, d, g));
        }
    }
}

/// A failed computation keeps the graph consistent.
pub proof fn lemma_abort_keeps_graph<A, V, W, C>(m: Files<A, V, W, C>, f: FileRef)
    requires
        graph_wf(m),
    ensures
        graph_wf(abort_state(m, f)),
{
    let n = abort_state(m, f);
    if m.contains_key(f) && m[f].slot is InProgress {
        let old_deps = recorded_deps(m[f].slot);
        let m1 = update_downstream_state(m, old_deps, Seq::empty(), f);
        assert(m1.dom() =~= m.dom());
        assert(n.dom() =~= m.dom());
        assert(recorded_deps(n[f].slot) =~= Seq::empty());
        assert forall|g: FileRef, d: FileRef| #[trigger] imports(n, g, d) implies feeds(n, d, g) by {
            assert(g != f);
            assert(imports(m, g, d));
            assert(feeds(m, d, g));
        }
    }
}

/// Closing a file keeps the graph consistent.
pub proof fn lemma_close_keeps_graph<A, V, W, C>(m: Files<A, V, W, C>, f: FileRef)
    requires
        graph_wf(m),
    ensures
        graph_wf(close_state(m, f)),
{
    let n = close_state(m, f);
    if !m.contains_key(f) {
    } else if m[f].downstream.is_empty() {
        assert(n.dom() =~= m.dom().remove(f));
        assert forall|g: FileRef, d: FileRef| #[trigger] imports(n, g, d) implies feeds(n, d, g) by {
            assert(imports(m, g, d));
            assert(feeds(m, d, g));
            if d == f {
                assert(m[f].downstream.contains(g));
            }
        }
    } else {
        assert(n.dom() =~= m.dom());
        assert forall|g: FileRef, d: FileRef| #[trigger] imports(n, g, d) implies feeds(n, d, g) by {
            assert(imports(m, g, d));
            assert(feeds(m, d, g));
        }
    }
}

} // verus!
