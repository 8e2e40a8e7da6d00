use mm0_rs::util::{reversed, ElabError, ErrorLevel, Span};
use mm0_rs::vfs::{copy_refs, position, vec_contains};

#[test]
fn reversed_turns_the_order_around() {
    assert_eq!(reversed(vec![1, 2, 3]), vec![3, 2, 1]);
    assert_eq!(reversed(vec!["a".to_string()]), vec!["a".to_string()]);
    assert_eq!(reversed(Vec::<u8>::new()), Vec::<u8>::new());
}

#[test]
fn new_e_makes_an_error() {
    let e = ElabError::new_e(Span { start: 2, end: 5 }, "wrong".to_string());
    assert_eq!(e.pos, Span { start: 2, end: 5 });
    assert_eq!(e.level, ErrorLevel::Error);
    assert_eq!(e.msg, "wrong");
}

#[test]
fn lists_of_files_are_searched_from_the_front() {
    let v = vec![4, 7, 4, 9];
    assert!(vec_contains(&v, 7));
    assert!(!vec_contains(&v, 5));
    assert!(!vec_contains(&Vec::new(), 5));
    assert_eq!(position(&v, 4), Some(0));
    assert_eq!(position(&v, 9), Some(3));
    assert_eq!(position(&v, 5), None);
    assert_eq!(copy_refs(&v), v);
}
