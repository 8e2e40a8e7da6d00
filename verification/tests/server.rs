use mm0_rs::elab::environment::{AtomData, DeclKey, Declared, Environment, ObjectKind};
use mm0_rs::server::{
    definition, hover, hover_texts, locate, parse_notification, parse_request, response_err,
    ErrorCode, Located, NotificationType, RequestType, Target,
};
use mm0_rs::text::Position;
use mm0_rs::util::{FileSpan, Span};
use mm0_rs::vfs::VFS;

fn sp(start: usize, end: usize) -> Span {
    Span { start, end }
}

fn at(file: u64, start: usize, end: usize, full: (usize, usize)) -> Declared {
    Declared { span: FileSpan { file, span: sp(start, end) }, full: sp(full.0, full.1) }
}

fn sample_env() -> Environment {
    Environment {
        sorts: vec![at(1, 5, 8, (0, 9)), at(2, 15, 18, (10, 19))],
        terms: vec![at(1, 25, 27, (20, 40))],
        thms: vec![at(3, 45, 47, (41, 60)), at(1, 65, 67, (61, 80))],
        data: vec![
            AtomData { sort: None, decl: None, lisp: None },
            AtomData { sort: Some(1), decl: Some(DeclKey::Term(0)), lisp: Some(at(4, 1, 2, (0, 3))) },
            AtomData { sort: None, decl: Some(DeclKey::Thm(1)), lisp: None },
            AtomData { sort: Some(0), decl: None, lisp: None },
        ],
    }
}

fn target(origin: Span, d: Declared) -> Target {
    Target { origin, span: d.span, full: d.full }
}

#[test]
fn parse_request_knows_four_methods() {
    assert_eq!(parse_request("textDocument/completion"), Some(RequestType::Completion));
    assert_eq!(parse_request("textDocument/hover"), Some(RequestType::Hover));
    assert_eq!(parse_request("textDocument/definition"), Some(RequestType::Definition));
    assert_eq!(parse_request("textDocument/documentSymbol"), Some(RequestType::DocumentSymbol));
    assert_eq!(parse_request("textDocument/references"), None);
    assert_eq!(parse_request("textDocument/Hover"), None);
    assert_eq!(parse_request("textDocument/hover "), None);
    assert_eq!(parse_request(""), None);
    assert_eq!(parse_request("textDocument/didOpen"), None);
}

#[test]
fn parse_notification_knows_four_methods() {
    assert_eq!(parse_notification("$/cancelRequest"), Some(NotificationType::CancelRequest));
    assert_eq!(parse_notification("textDocument/didOpen"), Some(NotificationType::DidOpen));
    assert_eq!(parse_notification("textDocument/didChange"), Some(NotificationType::DidChange));
    assert_eq!(parse_notification("textDocument/didClose"), Some(NotificationType::DidClose));
    assert_eq!(parse_notification("textDocument/didSave"), None);
    assert_eq!(parse_notification("initialized"), None);
    assert_eq!(parse_notification("textDocument/hover"), None);
}

#[test]
fn error_codes_are_those_of_the_protocol() {
    assert_eq!(ErrorCode::ParseError.code(), -32700);
    assert_eq!(ErrorCode::InvalidRequest.code(), -32600);
    assert_eq!(ErrorCode::MethodNotFound.code(), -32601);
    assert_eq!(ErrorCode::InvalidParams.code(), -32602);
    assert_eq!(ErrorCode::InternalError.code(), -32603);
}

#[test]
fn response_err_carries_code_and_message() {
    let e = response_err(ErrorCode::InternalError, "boom".to_string());
    assert_eq!(e.code, -32603);
    assert_eq!(e.message, "boom");
}

#[test]
fn a_position_in_the_text_has_an_offset() {
    let mut vfs: VFS<u8, u8, u8, u8> = VFS::new();
    vfs.open_virt(1, 1, b"ab\ncd".to_vec());
    assert_eq!(locate(&vfs, 1, Position { line: 1, character: 1 }), Located::At(4));
    assert_eq!(locate(&vfs, 1, Position { line: 0, character: 0 }), Located::At(0));
    assert_eq!(locate(&vfs, 1, Position { line: 1, character: 2 }), Located::At(5));
}

#[test]
fn a_position_outside_the_text_is_answered_with_nothing() {
    let mut vfs: VFS<u8, u8, u8, u8> = VFS::new();
    vfs.open_virt(1, 1, b"ab\ncd".to_vec());
    assert_eq!(locate(&vfs, 1, Position { line: 2, character: 0 }), Located::Nowhere);
    assert_eq!(locate(&vfs, 1, Position { line: 1, character: 3 }), Located::Nowhere);
}

#[test]
fn a_request_on_an_unknown_file_asks_for_the_file_to_be_loaded() {
    let mut vfs: VFS<u8, u8, u8, u8> = VFS::new();
    let p = Position { line: 0, character: 2 };
    assert_eq!(locate(&vfs, 1, p), Located::Load);
    // once it is loaded, the position is found in what was loaded
    assert!(vfs.get_or_insert(1, b"from disk".to_vec()));
    assert_eq!(locate(&vfs, 1, p), Located::At(2));
    assert_eq!(vfs.get(1).unwrap().version(), None);
}

#[test]
fn hover_texts_show_sorts_terms_theorems_and_variables() {
    let items = vec![
        (sp(1, 2), ObjectKind::Sort(0), Some("sort".to_string())),
        (sp(3, 4), ObjectKind::Term(0, sp(30, 40)), Some("term".to_string())),
        (sp(5, 6), ObjectKind::Thm(1), Some("theorem".to_string())),
        (sp(7, 8), ObjectKind::Var(2), Some("variable".to_string())),
    ];
    assert_eq!(
        hover_texts(&items),
        vec![
            (sp(1, 2), "sort".to_string()),
            (sp(30, 40), "term".to_string()),
            (sp(5, 6), "theorem".to_string()),
            (sp(7, 8), "variable".to_string()),
        ]
    );
}

#[test]
fn hover_texts_show_no_names_no_imports_and_nothing_without_a_text() {
    let items = vec![
        (sp(1, 2), ObjectKind::Global(0), Some("name".to_string())),
        (sp(3, 4), ObjectKind::Import(7), Some("import".to_string())),
        (sp(5, 6), ObjectKind::Var(2), None),
        (sp(7, 8), ObjectKind::Sort(2), None),
    ];
    assert!(hover_texts(&items).is_empty());
    assert!(hover(&hover_texts(&items)).is_none());
    assert!(hover_texts(&vec![]).is_empty());
}

#[test]
fn hover_texts_keep_the_order_of_what_is_shown() {
    let items = vec![
        (sp(1, 2), ObjectKind::Import(7), None),
        (sp(3, 4), ObjectKind::Thm(1), Some("first".to_string())),
        (sp(5, 6), ObjectKind::Global(0), Some("name".to_string())),
        (sp(7, 8), ObjectKind::Sort(0), Some("second".to_string())),
    ];
    let h = hover(&hover_texts(&items)).unwrap();
    assert_eq!(h.range, sp(3, 4));
    assert_eq!(h.contents, vec!["first".to_string(), "second".to_string()]);
}

#[test]
fn hover_shows_every_text_at_the_span_of_the_first() {
    assert!(hover(&vec![]).is_none());
    let h = hover(&vec![(sp(3, 5), "term t: s".to_string())]).unwrap();
    assert_eq!(h.range, sp(3, 5));
    assert_eq!(h.contents, vec!["term t: s".to_string()]);
    let h = hover(&vec![
        (sp(3, 5), "one".to_string()),
        (sp(0, 9), "two".to_string()),
        (sp(4, 4), "three".to_string()),
    ])
    .unwrap();
    assert_eq!(h.range, sp(3, 5));
    assert_eq!(h.contents, vec!["one".to_string(), "two".to_string(), "three".to_string()]);
}

#[test]
fn definition_of_sorts_terms_and_theorems_is_their_declaration() {
    let env = sample_env();
    assert!(env.check());
    let o = sp(100, 103);
    assert_eq!(
        definition(&env, &vec![(o, ObjectKind::Sort(1))]),
        vec![target(o, env.sorts[1])]
    );
    assert_eq!(
        definition(&env, &vec![(o, ObjectKind::Term(0, sp(7, 8)))]),
        vec![target(o, env.terms[0])]
    );
    assert_eq!(
        definition(&env, &vec![(o, ObjectKind::Thm(1))]),
        vec![target(o, env.thms[1])]
    );
}

#[test]
fn definition_of_a_variable_is_nowhere() {
    let env = sample_env();
    assert!(definition(&env, &vec![(sp(1, 2), ObjectKind::Var(0))]).is_empty());
    assert!(definition(&env, &vec![]).is_empty());
}

#[test]
fn definition_of_a_name_lists_declaration_sort_and_definition() {
    let env = sample_env();
    let o = sp(100, 103);
    assert!(definition(&env, &vec![(o, ObjectKind::Global(0))]).is_empty());
    assert_eq!(
        definition(&env, &vec![(o, ObjectKind::Global(1))]),
        vec![target(o, env.terms[0]), target(o, env.sorts[1]), target(o, at(4, 1, 2, (0, 3)))]
    );
    assert_eq!(
        definition(&env, &vec![(o, ObjectKind::Global(2))]),
        vec![target(o, env.thms[1])]
    );
    assert_eq!(
        definition(&env, &vec![(o, ObjectKind::Global(3))]),
        vec![target(o, env.sorts[0])]
    );
}

#[test]
fn definition_of_an_import_is_the_start_of_the_file() {
    let env = sample_env();
    let o = sp(0, 12);
    assert_eq!(
        definition(&env, &vec![(o, ObjectKind::Import(7))]),
        vec![Target { origin: o, span: FileSpan { file: 7, span: sp(0, 0) }, full: sp(0, 0) }]
    );
}

#[test]
fn definition_answers_for_each_item_in_order() {
    let env = sample_env();
    let a = sp(1, 2);
    let b = sp(3, 4);
    let found = vec![
        (a, ObjectKind::Thm(0)),
        (a, ObjectKind::Var(3)),
        (b, ObjectKind::Global(1)),
        (b, ObjectKind::Sort(0)),
    ];
    assert_eq!(
        definition(&env, &found),
        vec![
            target(a, env.thms[0]),
            target(b, env.terms[0]),
            target(b, env.sorts[1]),
            target(b, at(4, 1, 2, (0, 3))),
            target(b, env.sorts[0]),
        ]
    );
}

#[test]
fn an_environment_knows_what_is_in_its_tables() {
    let env = sample_env();
    assert!(env.knows(ObjectKind::Sort(1)));
    assert!(!env.knows(ObjectKind::Sort(2)));
    assert!(env.knows(ObjectKind::Term(0, sp(0, 0))));
    assert!(!env.knows(ObjectKind::Term(1, sp(0, 0))));
    assert!(env.knows(ObjectKind::Thm(1)));
    assert!(!env.knows(ObjectKind::Thm(2)));
    assert!(env.knows(ObjectKind::Global(3)));
    assert!(!env.knows(ObjectKind::Global(4)));
    assert!(env.knows(ObjectKind::Var(99)));
    assert!(env.knows(ObjectKind::Import(99)));
}

#[test]
fn an_environment_with_a_dangling_name_is_not_well_formed() {
    let mut env = sample_env();
    env.data.push(AtomData { sort: Some(2), decl: None, lisp: None });
    assert!(!env.check());
    let mut env = sample_env();
    env.data.push(AtomData { sort: None, decl: Some(DeclKey::Term(1)), lisp: None });
    assert!(!env.check());
    let mut env = sample_env();
    env.data.push(AtomData { sort: None, decl: Some(DeclKey::Thm(2)), lisp: None });
    assert!(!env.check());
}
