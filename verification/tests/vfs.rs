use mm0_rs::hash::content_hash;
use mm0_rs::text::{Position, Range, TextEdit};
use mm0_rs::util::{ElabError, ServerError, Span};
use mm0_rs::vfs::{record_dependency, FileCache, Finished, Outcome, Trigger, VFS};
use std::sync::Arc;

type Store = VFS<String, String, u32, u32>;

fn ast(s: &str) -> Arc<String> {
    Arc::new(s.to_string())
}

fn env(s: &str) -> Arc<String> {
    Arc::new(s.to_string())
}

fn full(file: u64) -> Trigger {
    Trigger { file, start: None }
}

fn insert_at_start(text: &str) -> Vec<TextEdit> {
    let p = Position { line: 0, character: 0 };
    vec![TextEdit { range: Some(Range { start: p, end: p }), text: text.as_bytes().to_vec() }]
}

/// Runs a whole pass for `file` with the dependencies `deps`, whose current
/// hashes are the fingerprints of the result.
fn pass(vfs: &mut Store, file: u64, deps: Vec<u64>, errors: Vec<ElabError>, e: &str) -> Finished<String, u32> {
    let out = vfs.begin(file, None, 0).expect("the store knows the file");
    assert!(matches!(out, Outcome::Start { .. }));
    let version = vfs.get(file).unwrap().version();
    let mut toks = Vec::new();
    for d in &deps {
        match vfs.get(*d).unwrap().cache() {
            Some(FileCache::Ready { hash, .. }) => toks.push(*hash),
            _ => panic!("the dependency has no result"),
        }
    }
    let hash = content_hash(version, &toks);
    assert!(vfs.knows_all(&deps));
    vfs.finish(file, hash, ast("tree"), errors, deps, env(e), false)
}

fn sorted(mut v: Vec<u64>) -> Vec<u64> {
    v.sort();
    v
}

fn dependents(vfs: &Store, file: u64) -> Vec<u64> {
    sorted(vfs.get(file).unwrap().dependents().iter().copied().collect())
}

#[test]
fn a_new_store_knows_no_file() {
    let vfs = Store::new();
    assert!(vfs.get(1).is_none());
    assert!(!vfs.recheck(1));
}

#[test]
fn get_or_insert_adds_a_background_file_once() {
    let mut vfs = Store::new();
    assert!(vfs.get_or_insert(1, b"from disk".to_vec()));
    assert!(!vfs.get_or_insert(1, b"other".to_vec()));
    let f = vfs.get(1).unwrap();
    assert_eq!(f.version(), None);
    assert_eq!(f.source(), &b"from disk".to_vec());
    assert!(f.cache().is_none());
    assert!(f.dependents().is_empty());
    assert_eq!(vfs.source(1), &b"from disk".to_vec());
}

#[test]
fn open_virt_asks_for_the_file_from_its_start() {
    let mut vfs = Store::new();
    let todo = vfs.open_virt(1, 5, b"text".to_vec());
    assert_eq!(todo, vec![Trigger { file: 1, start: Some(0) }]);
    let f = vfs.get(1).unwrap();
    assert_eq!(f.version(), Some(5));
    assert_eq!(f.source(), &b"text".to_vec());
}

#[test]
fn open_virt_on_a_known_file_replaces_the_text_and_keeps_the_rest() {
    let mut vfs = Store::new();
    vfs.get_or_insert(2, b"dep".to_vec());
    vfs.open_virt(1, 1, b"a".to_vec());
    pass(&mut vfs, 2, vec![], vec![], "e2");
    pass(&mut vfs, 1, vec![2], vec![], "e1");
    let todo = vfs.open_virt(2, 7, b"dep, now open".to_vec());
    assert_eq!(todo, vec![full(1), Trigger { file: 2, start: Some(0) }]);
    let f = vfs.get(2).unwrap();
    assert_eq!(f.version(), Some(7));
    assert_eq!(f.source(), &b"dep, now open".to_vec());
    assert!(matches!(f.cache(), Some(FileCache::Ready { .. })));
    assert_eq!(dependents(&vfs, 2), vec![1]);
}

#[test]
fn change_edits_the_text_and_reports_the_point_of_divergence() {
    let mut vfs = Store::new();
    vfs.open_virt(1, 1, b"abc\ndef".to_vec());
    let p = Position { line: 1, character: 1 };
    let q = Position { line: 1, character: 2 };
    let edits = vec![TextEdit { range: Some(Range { start: p, end: q }), text: b"EE".to_vec() }];
    let r = vfs.change(1, 2, &edits);
    assert_eq!(r, Ok(Some(Trigger { file: 1, start: Some(5) })));
    let f = vfs.get(1).unwrap();
    assert_eq!(f.version(), Some(2));
    assert_eq!(f.source(), &b"abc\ndEEf".to_vec());
}

#[test]
fn change_without_edits_does_nothing() {
    let mut vfs = Store::new();
    vfs.open_virt(1, 1, b"abc".to_vec());
    assert_eq!(vfs.change(1, 2, &Vec::new()), Ok(None));
    assert_eq!(vfs.get(1).unwrap().version(), Some(1));
    // not even for a file that the store does not know
    assert_eq!(vfs.change(9, 2, &Vec::new()), Ok(None));
}

#[test]
fn change_of_an_unknown_file_is_an_error() {
    let mut vfs = Store::new();
    assert_eq!(vfs.change(9, 2, &insert_at_start("x")), Err(ServerError::ChangedNonexistentFile));
    assert!(vfs.get(9).is_none());
}

#[test]
fn begin_on_an_unknown_file_gives_nothing() {
    let mut vfs = Store::new();
    assert!(vfs.begin(1, None, 0).is_none());
    assert_eq!(vfs.join(1, 5), Some(5));
}

#[test]
fn begin_on_an_empty_slot_starts_without_a_seed() {
    let mut vfs = Store::new();
    vfs.open_virt(1, 1, b"a".to_vec());
    match vfs.begin(1, Some(0), 7) {
        Some(Outcome::Start { old_ast, old_env, old_deps, superseded }) => {
            assert!(old_ast.is_none());
            assert!(old_env.is_none());
            assert!(old_deps.is_empty());
            assert!(superseded.is_none());
        }
        _ => panic!("a fresh computation was owed"),
    }
    match vfs.get(1).unwrap().cache() {
        Some(FileCache::InProgress { version, cancel, senders, deps }) => {
            assert_eq!(*version, Some(1));
            assert_eq!(*cancel, 7);
            assert!(senders.is_empty());
            assert!(deps.is_empty());
        }
        _ => panic!("the slot is not in progress"),
    }
}

#[test]
fn concurrent_requests_for_one_version_share_one_computation() {
    let mut vfs = Store::new();
    vfs.open_virt(1, 1, b"a".to_vec());
    assert!(matches!(vfs.begin(1, Some(0), 7), Some(Outcome::Start { .. })));
    for w in [100, 101, 102] {
        assert!(matches!(vfs.begin(1, None, 8), Some(Outcome::Join)));
        assert_eq!(vfs.join(1, w), None);
    }
    // the flag of the running computation is still the first one
    assert!(matches!(vfs.get(1).unwrap().cache(), Some(FileCache::InProgress { cancel: 7, .. })));
    let e = env("result");
    let r = vfs.finish(1, 42, ast("t"), vec![], vec![], e.clone(), false);
    assert_eq!(r.hash, 42);
    assert!(Arc::ptr_eq(&r.env, &e));
    assert_eq!(r.deliveries.len(), 3);
    for (d, w) in r.deliveries.iter().zip([100, 101, 102]) {
        assert_eq!(d.waiter, w);
        assert_eq!(d.hash, 42);
        assert!(Arc::ptr_eq(&d.env, &e));
    }
    assert!(r.publish);
    assert!(r.todo.is_empty());
}

#[test]
fn join_without_a_computation_hands_the_waiter_back() {
    let mut vfs = Store::new();
    vfs.open_virt(1, 1, b"a".to_vec());
    assert_eq!(vfs.join(1, 5), Some(5));
    pass(&mut vfs, 1, vec![], vec![], "e");
    assert_eq!(vfs.join(1, 6), Some(6));
}

#[test]
fn a_second_request_on_an_unchanged_file_is_answered_from_the_cache() {
    let mut vfs = Store::new();
    vfs.open_virt(1, 1, b"a".to_vec());
    let e = env("result");
    assert!(matches!(vfs.begin(1, Some(0), 0), Some(Outcome::Start { .. })));
    let hash = content_hash(Some(1), &vec![]);
    vfs.finish(1, hash, ast("t"), vec![], vec![], e.clone(), false);
    assert!(vfs.recheck(1));
    for _ in 0..2 {
        match vfs.begin(1, Some(0), 0) {
            Some(Outcome::AlreadyValid { hash: h, env }) => {
                assert_eq!(h, hash);
                assert!(Arc::ptr_eq(&env, &e));
            }
            _ => panic!("the cached result was valid"),
        }
        assert!(matches!(vfs.get(1).unwrap().cache(), Some(FileCache::Ready { .. })));
    }
}

#[test]
fn a_result_stays_valid_while_its_dependencies_keep_their_hashes() {
    let mut vfs = Store::new();
    vfs.get_or_insert(2, b"dep".to_vec());
    vfs.get_or_insert(3, b"dep".to_vec());
    vfs.open_virt(1, 1, b"a".to_vec());
    pass(&mut vfs, 2, vec![], vec![], "e2");
    pass(&mut vfs, 3, vec![], vec![], "e3");
    pass(&mut vfs, 1, vec![2, 3], vec![], "e1");
    assert!(vfs.recheck(1));
    assert!(matches!(vfs.begin(1, None, 0), Some(Outcome::AlreadyValid { .. })));
}

#[test]
fn a_completed_result_is_valid_while_version_and_fingerprints_are_current() {
    let mut vfs = Store::new();
    vfs.get_or_insert(2, b"dep".to_vec());
    vfs.open_virt(1, 1, b"a".to_vec());
    let h2 = pass(&mut vfs, 2, vec![], vec![], "e2").hash;
    vfs.begin(1, None, 0);
    let r = vfs.complete(1, Some(1), &vec![h2], ast("t"), vec![], vec![2], env("e1"), false);
    assert_eq!(r.hash, content_hash(Some(1), &vec![h2]));
    assert!(r.publish);
    assert!(vfs.recheck(1));
    assert!(matches!(vfs.begin(1, None, 0), Some(Outcome::AlreadyValid { .. })));
    // a result for an older version, or with other fingerprints, is stale
    vfs.change(1, 2, &insert_at_start("x")).unwrap();
    vfs.begin(1, None, 0);
    vfs.complete(1, Some(1), &vec![h2], ast("t"), vec![], vec![2], env("e1"), false);
    assert!(!vfs.recheck(1));
    vfs.begin(1, None, 0);
    vfs.complete(1, Some(2), &vec![h2 ^ 1], ast("t"), vec![], vec![2], env("e1"), false);
    assert!(!vfs.recheck(1));
    vfs.begin(1, None, 0);
    vfs.complete(1, Some(2), &vec![h2], ast("t"), vec![], vec![2], env("e1"), true);
    assert!(!vfs.recheck(1));
    vfs.begin(1, None, 0);
    vfs.complete(1, Some(2), &vec![h2], ast("t"), vec![], vec![2], env("e1"), false);
    assert!(vfs.recheck(1));
}

#[test]
fn a_result_with_another_hash_than_the_recomputed_one_is_stale() {
    let mut vfs = Store::new();
    vfs.open_virt(1, 1, b"a".to_vec());
    vfs.begin(1, None, 0);
    vfs.finish(1, 12345, ast("t"), vec![], vec![], env("e"), false);
    assert!(!vfs.recheck(1));
    assert!(matches!(vfs.begin(1, None, 0), Some(Outcome::Start { .. })));
}

#[test]
fn a_changed_version_makes_the_result_stale_and_offers_it_as_seed() {
    let mut vfs = Store::new();
    vfs.get_or_insert(2, b"dep".to_vec());
    vfs.open_virt(1, 1, b"a".to_vec());
    pass(&mut vfs, 2, vec![], vec![], "e2");
    let err = ElabError::new_e(Span { start: 0, end: 1 }, "bad".to_string());
    pass(&mut vfs, 1, vec![2], vec![err], "e1");
    let t = vfs.change(1, 2, &insert_at_start("x")).unwrap().unwrap();
    assert_eq!(t, Trigger { file: 1, start: Some(0) });
    match vfs.begin(1, t.start, 0) {
        Some(Outcome::Start { old_ast, old_env, old_deps, superseded }) => {
            let (start, tree) = old_ast.expect("the old tree is offered");
            assert_eq!(start, 0);
            assert_eq!(*tree, "tree");
            let (errors, e) = old_env.expect("the old environment is offered");
            assert_eq!(errors.len(), 1);
            assert_eq!(errors[0].msg, "bad");
            assert_eq!(*e, "e1");
            assert_eq!(old_deps, vec![2]);
            assert!(superseded.is_none());
        }
        _ => panic!("the result was stale"),
    }
    // the edges of the old result stay until the new one is handed in
    assert_eq!(dependents(&vfs, 2), vec![1]);
    assert_eq!(vfs.get(1).unwrap().recorded(), vec![2]);
}

#[test]
fn without_a_resume_point_the_old_tree_is_not_offered() {
    let mut vfs = Store::new();
    vfs.open_virt(1, 1, b"a".to_vec());
    pass(&mut vfs, 1, vec![], vec![], "e1");
    vfs.change(1, 2, &insert_at_start("x")).unwrap();
    match vfs.begin(1, None, 0) {
        Some(Outcome::Start { old_ast, old_env, .. }) => {
            assert!(old_ast.is_none());
            assert!(old_env.is_some());
        }
        _ => panic!("the result was stale"),
    }
}

#[test]
fn a_dependency_with_a_new_hash_makes_the_dependent_stale() {
    let mut vfs = Store::new();
    vfs.open_virt(2, 1, b"dep".to_vec());
    vfs.open_virt(1, 1, b"a".to_vec());
    pass(&mut vfs, 2, vec![], vec![], "e2");
    pass(&mut vfs, 1, vec![2], vec![], "e1");
    assert!(vfs.recheck(1));
    vfs.change(2, 2, &insert_at_start("x")).unwrap();
    // the dependency is stale itself now, but still offers its old hash
    assert!(!vfs.recheck(2));
    assert!(vfs.recheck(1));
    let r = pass(&mut vfs, 2, vec![], vec![], "e2'");
    assert_eq!(r.todo, vec![full(1)]);
    assert!(!vfs.recheck(1));
    assert!(matches!(vfs.begin(1, None, 0), Some(Outcome::Start { .. })));
}

#[test]
fn a_dependency_in_progress_or_incomplete_makes_the_dependent_stale() {
    let mut vfs = Store::new();
    vfs.open_virt(2, 1, b"dep".to_vec());
    vfs.open_virt(1, 1, b"a".to_vec());
    pass(&mut vfs, 2, vec![], vec![], "e2");
    pass(&mut vfs, 1, vec![2], vec![], "e1");
    let h2 = content_hash(Some(1), &vec![]);
    // same hash as before, but handed in under cancellation
    vfs.begin(2, None, 0);
    vfs.finish(2, h2, ast("t"), vec![], vec![], env("e2"), true);
    assert!(!vfs.recheck(1));
    // complete again: valid again
    vfs.begin(2, None, 0);
    vfs.finish(2, h2, ast("t"), vec![], vec![], env("e2"), false);
    assert!(vfs.recheck(1));
    // in progress: stale
    vfs.change(2, 2, &insert_at_start("x")).unwrap();
    vfs.begin(2, None, 0);
    assert!(!vfs.recheck(1));
}

#[test]
fn a_cancelled_result_is_kept_as_seed_but_never_valid() {
    let mut vfs = Store::new();
    vfs.open_virt(1, 1, b"a".to_vec());
    vfs.begin(1, None, 0);
    let hash = content_hash(Some(1), &vec![]);
    let r = vfs.finish(1, hash, ast("t"), vec![], vec![], env("partial"), true);
    assert!(!r.publish);
    assert!(matches!(vfs.get(1).unwrap().cache(), Some(FileCache::Ready { complete: false, .. })));
    assert!(!vfs.recheck(1));
    match vfs.begin(1, Some(0), 0) {
        Some(Outcome::Start { old_ast, old_env, .. }) => {
            assert!(old_ast.is_some());
            assert_eq!(*old_env.unwrap().1, "partial");
        }
        _ => panic!("a cancelled result is never valid"),
    }
}

#[test]
fn a_change_during_a_computation_supersedes_it_and_keeps_its_waiters() {
    let mut vfs = Store::new();
    vfs.get_or_insert(2, b"dep".to_vec());
    vfs.open_virt(1, 1, b"a".to_vec());
    pass(&mut vfs, 2, vec![], vec![], "e2");
    pass(&mut vfs, 1, vec![2], vec![], "e1");
    vfs.change(1, 2, &insert_at_start("x")).unwrap();
    // the computation for version 2 runs under the flag 7
    assert!(matches!(vfs.begin(1, None, 7), Some(Outcome::Start { .. })));
    assert_eq!(vfs.join(1, 100), None);
    assert_eq!(vfs.join(1, 101), None);
    // version 3 arrives before it has finished
    vfs.change(1, 3, &insert_at_start("y")).unwrap();
    match vfs.begin(1, Some(0), 8) {
        Some(Outcome::Start { old_ast, old_env, old_deps, superseded }) => {
            assert_eq!(superseded, Some(7));
            assert!(old_ast.is_none());
            assert!(old_env.is_none());
            assert_eq!(old_deps, vec![2]);
        }
        _ => panic!("the running computation was for another version"),
    }
    match vfs.get(1).unwrap().cache() {
        Some(FileCache::InProgress { version, cancel, senders, deps }) => {
            assert_eq!(*version, Some(3));
            assert_eq!(*cancel, 8);
            assert_eq!(senders, &vec![100, 101]);
            assert_eq!(deps, &vec![2]);
        }
        _ => panic!("the slot is not in progress"),
    }
    assert_eq!(vfs.join(1, 102), None);
    // the computation for version 3 hands in its result first
    let e3 = env("for version 3");
    let hash = content_hash(Some(3), &vec![]);
    let r = vfs.finish(1, hash, ast("t3"), vec![], vec![], e3.clone(), false);
    assert!(r.publish);
    let got: Vec<u32> = r.deliveries.iter().map(|d| d.waiter).collect();
    assert_eq!(got, vec![100, 101, 102]);
    for d in &r.deliveries {
        assert_eq!(d.hash, hash);
        assert!(Arc::ptr_eq(&d.env, &e3));
    }
    assert!(vfs.recheck(1));
    // the superseded one comes in late, cancelled: nobody is answered with
    // it and it is not published
    let late = vfs.finish(1, 1, ast("t2"), vec![], vec![2], env("for version 2"), true);
    assert!(late.deliveries.is_empty());
    assert!(!late.publish);
    assert!(!vfs.recheck(1));
}

#[test]
fn finish_moves_the_edges_to_the_new_dependency_list() {
    let mut vfs = Store::new();
    for d in [2, 3, 4] {
        vfs.get_or_insert(d, b"dep".to_vec());
        pass(&mut vfs, d, vec![], vec![], "e");
    }
    vfs.open_virt(1, 1, b"a".to_vec());
    pass(&mut vfs, 1, vec![2, 3], vec![], "e1");
    assert_eq!(dependents(&vfs, 2), vec![1]);
    assert_eq!(dependents(&vfs, 3), vec![1]);
    assert_eq!(dependents(&vfs, 4), Vec::<u64>::new());
    assert_eq!(vfs.get(1).unwrap().recorded(), vec![2, 3]);
    vfs.change(1, 2, &insert_at_start("x")).unwrap();
    pass(&mut vfs, 1, vec![3, 4], vec![], "e1");
    assert_eq!(dependents(&vfs, 2), Vec::<u64>::new());
    assert_eq!(dependents(&vfs, 3), vec![1]);
    assert_eq!(dependents(&vfs, 4), vec![1]);
    assert_eq!(vfs.get(1).unwrap().recorded(), vec![3, 4]);
}

#[test]
fn finish_triggers_every_dependent() {
    let mut vfs = Store::new();
    vfs.get_or_insert(9, b"dep".to_vec());
    pass(&mut vfs, 9, vec![], vec![], "e");
    for f in [1, 2, 3] {
        vfs.open_virt(f, 1, b"a".to_vec());
        pass(&mut vfs, f, vec![9], vec![], "e");
    }
    vfs.begin(9, None, 0);
    // dependents are triggered whether or not the result is complete
    let r = vfs.finish(9, 5, ast("t"), vec![], vec![], env("e"), true);
    let mut files: Vec<u64> = r.todo.iter().map(|t| t.file).collect();
    files.sort();
    assert_eq!(files, vec![1, 2, 3]);
    assert!(r.todo.iter().all(|t| t.start.is_none()));
}

#[test]
fn a_file_that_no_longer_imports_another_is_not_triggered_by_it() {
    let mut vfs = Store::new();
    vfs.open_virt(2, 1, b"b".to_vec());
    vfs.open_virt(1, 1, b"import b".to_vec());
    pass(&mut vfs, 2, vec![], vec![], "e2");
    pass(&mut vfs, 1, vec![2], vec![], "e1");
    let r = pass_again(&mut vfs, 2, 2);
    assert_eq!(r.todo, vec![full(1)]);
    vfs.change(1, 2, &insert_at_start("-- ")).unwrap();
    pass(&mut vfs, 1, vec![], vec![], "e1");
    assert_eq!(dependents(&vfs, 2), Vec::<u64>::new());
    let r = pass_again(&mut vfs, 2, 3);
    assert!(r.todo.is_empty());
}

fn pass_again(vfs: &mut Store, file: u64, version: i64) -> Finished<String, u32> {
    vfs.change(file, version, &insert_at_start("x")).unwrap();
    pass(vfs, file, vec![], vec![], "again")
}

#[test]
fn finish_for_an_unknown_file_changes_nothing() {
    let mut vfs = Store::new();
    vfs.open_virt(2, 1, b"b".to_vec());
    let r = vfs.finish(1, 5, ast("t"), vec![], vec![2], env("e"), false);
    assert_eq!(r.hash, 5);
    assert!(r.deliveries.is_empty());
    assert!(!r.publish);
    assert!(r.todo.is_empty());
    assert!(vfs.get(1).is_none());
    assert!(vfs.get(2).unwrap().dependents().is_empty());
}

#[test]
fn knows_all_tells_whether_finish_may_be_called() {
    let mut vfs = Store::new();
    vfs.open_virt(1, 1, b"a".to_vec());
    vfs.open_virt(2, 1, b"b".to_vec());
    assert!(vfs.knows_all(&vec![]));
    assert!(vfs.knows_all(&vec![1, 2, 1]));
    assert!(!vfs.knows_all(&vec![1, 3]));
}

#[test]
fn closing_a_file_without_dependents_removes_it_and_retracts_its_diagnostics() {
    let mut vfs = Store::new();
    vfs.open_virt(2, 1, b"b".to_vec());
    vfs.open_virt(1, 1, b"import b".to_vec());
    pass(&mut vfs, 2, vec![], vec![], "e2");
    pass(&mut vfs, 1, vec![2], vec![], "e1");
    assert!(vfs.closes(1));
    assert!(vfs.get(1).is_some());
    let r = vfs.close(1);
    assert!(r.retract);
    assert!(r.todo.is_empty());
    assert!(vfs.get(1).is_none());
    assert!(!vfs.closes(1));
}

#[test]
fn closing_a_file_changes_no_other_file() {
    let mut vfs = Store::new();
    vfs.open_virt(2, 1, b"b".to_vec());
    vfs.open_virt(1, 1, b"import b".to_vec());
    pass(&mut vfs, 2, vec![], vec![], "e2");
    pass(&mut vfs, 1, vec![2], vec![], "e1");
    assert!(vfs.close(1).retract);
    // the file that it imported still has it among its dependents
    let f = vfs.get(2).unwrap();
    assert_eq!(f.version(), Some(1));
    assert_eq!(f.source(), &b"b".to_vec());
    assert_eq!(dependents(&vfs, 2), vec![1]);
    assert!(vfs.recheck(2));
    // so a new result for that file has it checked again
    let r = pass_again(&mut vfs, 2, 2);
    assert_eq!(r.todo, vec![full(1)]);
    // and that file stays while it has the dependent
    assert!(!vfs.closes(2));
    assert!(!vfs.close(2).retract);
    assert!(vfs.get(2).is_some());
}

#[test]
fn a_file_that_comes_back_loses_its_old_edge_with_its_next_result() {
    let mut vfs = Store::new();
    vfs.open_virt(2, 1, b"b".to_vec());
    vfs.open_virt(1, 1, b"import b".to_vec());
    pass(&mut vfs, 2, vec![], vec![], "e2");
    pass(&mut vfs, 1, vec![2], vec![], "e1");
    vfs.close(1);
    vfs.open_virt(1, 2, b"import b".to_vec());
    assert!(vfs.get(1).unwrap().recorded().is_empty());
    pass(&mut vfs, 1, vec![2], vec![], "e1");
    assert_eq!(dependents(&vfs, 2), vec![1]);
    vfs.change(1, 3, &insert_at_start("-- ")).unwrap();
    pass(&mut vfs, 1, vec![], vec![], "e1");
    assert!(vfs.get(2).unwrap().dependents().is_empty());
}

#[test]
fn closing_a_file_with_dependents_keeps_it_resolvable() {
    let mut vfs = Store::new();
    vfs.open_virt(2, 1, b"b".to_vec());
    vfs.open_virt(1, 1, b"import b".to_vec());
    pass(&mut vfs, 2, vec![], vec![], "e2");
    pass(&mut vfs, 1, vec![2], vec![], "e1");
    let r = vfs.close(2);
    assert!(!r.retract);
    assert_eq!(r.todo, vec![full(1)]);
    let f = vfs.get(2).unwrap();
    assert_eq!(f.version(), None);
    assert_eq!(f.source(), &b"b".to_vec());
    assert_eq!(dependents(&vfs, 2), vec![1]);
    // the dependent is stale, since the version of its dependency is gone
    // from under the hash, and elaborates again with the file still there
    pass(&mut vfs, 2, vec![], vec![], "e2");
    let r = pass(&mut vfs, 1, vec![2], vec![], "e1");
    assert!(r.publish);
    assert!(vfs.recheck(1));
    // closed a second time, it triggers nothing
    let r = vfs.close(2);
    assert!(!r.retract);
    assert!(r.todo.is_empty());
    // once the dependent imports it no more, closing removes it
    vfs.change(1, 2, &insert_at_start("-- ")).unwrap();
    pass(&mut vfs, 1, vec![], vec![], "e1");
    assert!(vfs.closes(2));
    let r = vfs.close(2);
    assert!(r.retract);
    assert!(vfs.get(2).is_none());
    assert!(vfs.get(1).is_some());
}

#[test]
fn closing_a_file_in_progress_hands_out_its_waiters() {
    let mut vfs = Store::new();
    vfs.open_virt(1, 1, b"a".to_vec());
    vfs.begin(1, None, 0);
    vfs.join(1, 100);
    vfs.join(1, 101);
    let r = vfs.close(1);
    assert!(r.retract);
    assert_eq!(r.waiters, vec![100, 101]);
    // the result that comes in later finds no file
    let late = vfs.finish(1, 5, ast("t"), vec![], vec![], env("e"), false);
    assert!(late.deliveries.is_empty());
    assert!(!late.publish);
}

#[test]
fn closing_a_file_that_stays_keeps_its_waiters_queued() {
    let mut vfs = Store::new();
    vfs.open_virt(2, 1, b"b".to_vec());
    vfs.open_virt(1, 1, b"import b".to_vec());
    pass(&mut vfs, 2, vec![], vec![], "e2");
    pass(&mut vfs, 1, vec![2], vec![], "e1");
    vfs.change(2, 2, &insert_at_start("x")).unwrap();
    vfs.begin(2, None, 0);
    vfs.join(2, 100);
    let r = vfs.close(2);
    assert!(!r.retract);
    assert!(r.waiters.is_empty());
    let fin = vfs.finish(2, 5, ast("t"), vec![], vec![], env("e"), false);
    assert_eq!(fin.deliveries.len(), 1);
    assert_eq!(fin.deliveries[0].waiter, 100);
}

#[test]
fn closing_an_unknown_file_does_nothing() {
    let mut vfs = Store::new();
    assert!(!vfs.closes(1));
    let r = vfs.close(1);
    assert!(!r.retract);
    assert!(r.todo.is_empty());
}

#[test]
fn abort_releases_the_waiters_and_empties_the_slot() {
    let mut vfs = Store::new();
    vfs.get_or_insert(2, b"dep".to_vec());
    pass(&mut vfs, 2, vec![], vec![], "e2");
    vfs.open_virt(1, 1, b"a".to_vec());
    pass(&mut vfs, 1, vec![2], vec![], "e1");
    vfs.change(1, 2, &insert_at_start("x")).unwrap();
    vfs.begin(1, None, 0);
    vfs.join(1, 100);
    vfs.join(1, 101);
    assert_eq!(vfs.abort(1), vec![100, 101]);
    assert!(vfs.get(1).unwrap().cache().is_none());
    assert!(vfs.get(2).unwrap().dependents().is_empty());
    // the next request starts afresh
    assert!(matches!(vfs.begin(1, None, 0), Some(Outcome::Start { .. })));
}

#[test]
fn abort_leaves_a_ready_slot_alone() {
    let mut vfs = Store::new();
    vfs.open_virt(1, 1, b"a".to_vec());
    pass(&mut vfs, 1, vec![], vec![], "e1");
    assert!(vfs.abort(1).is_empty());
    assert!(vfs.recheck(1));
    assert!(vfs.abort(9).is_empty());
}

#[test]
fn record_dependency_keeps_each_file_once_in_call_order() {
    let mut deps = Vec::new();
    for d in [5, 3, 5, 9, 3] {
        record_dependency(&mut deps, d);
    }
    assert_eq!(deps, vec![5, 3, 9]);
}

#[test]
fn an_error_in_an_import_is_published_for_the_imported_file_only() {
    // X = 1 imports Y = 2; Y has a declaration with an error
    let mut vfs = Store::new();
    vfs.open_virt(2, 1, b"term bad: ;".to_vec());
    vfs.open_virt(1, 1, b"import \"y\";".to_vec());
    let decl = Span { start: 0, end: 11 };
    // elaborating X consults Y, whose result comes first
    assert!(matches!(vfs.begin(1, Some(0), 0), Some(Outcome::Start { .. })));
    let mut deps = Vec::new();
    record_dependency(&mut deps, 2);
    assert!(matches!(vfs.begin(2, Some(0), 0), Some(Outcome::Start { .. })));
    let hy = content_hash(Some(1), &vec![]);
    let ry = vfs.finish(2, hy, ast("y"), vec![ElabError::new_e(decl, "bad term".to_string())], vec![], env("y"), false);
    assert!(ry.publish);
    match vfs.get(2).unwrap().cache() {
        Some(FileCache::Ready { errors, .. }) => {
            assert_eq!(errors.len(), 1);
            assert_eq!(errors[0].pos, decl);
        }
        _ => panic!("Y has a result"),
    }
    let hx = content_hash(Some(1), &vec![hy]);
    let rx = vfs.finish(1, hx, ast("x"), vec![], deps, env("x"), false);
    assert!(rx.publish);
    match vfs.get(1).unwrap().cache() {
        Some(FileCache::Ready { errors, .. }) => assert!(errors.is_empty()),
        _ => panic!("X has a result"),
    }
    // Y is fixed: it is elaborated again, and X after it
    let t = vfs.change(2, 2, &vec![TextEdit { range: None, text: b"term good: s;".to_vec() }]);
    assert_eq!(t, Ok(Some(Trigger { file: 2, start: Some(5) })));
    assert!(matches!(vfs.begin(2, Some(5), 0), Some(Outcome::Start { .. })));
    let hy2 = content_hash(Some(2), &vec![]);
    let ry = vfs.finish(2, hy2, ast("y"), vec![], vec![], env("y'"), false);
    assert!(ry.publish);
    assert_eq!(ry.todo, vec![full(1)]);
    match vfs.get(2).unwrap().cache() {
        Some(FileCache::Ready { errors, .. }) => assert!(errors.is_empty()),
        _ => panic!("Y has a result"),
    }
    assert!(matches!(vfs.begin(1, None, 0), Some(Outcome::Start { .. })));
    let rx = vfs.finish(1, content_hash(Some(1), &vec![hy2]), ast("x"), vec![], vec![2], env("x'"), false);
    assert!(rx.publish);
    assert!(vfs.recheck(1));
    assert!(vfs.recheck(2));
}
