use libreland::text::{
    is_listed, joined, lower, number_text, parse_index, parse_number, same, signed_text,
    tail_after,
};

#[test]
fn numbers_are_read_and_written() {
    for n in [0u64, 7, 10, 99, 100, 4_294_967_295, u64::MAX] {
        assert_eq!(number_text(n), n.to_string());
        assert_eq!(parse_index(&number_text(n)), Some(n as usize));
    }
    for n in [0, -1, 7, i32::MAX, i32::MIN] {
        assert_eq!(signed_text(n), n.to_string());
    }
    for s in ["", "+", "+5", "-5", "12a", " 5", "007", "4294967296", "4294967295"] {
        assert_eq!(parse_number(s), s.parse::<u32>().ok(), "{s:?}");
        assert_eq!(parse_index(s), s.parse::<usize>().ok(), "{s:?}");
    }
    assert_eq!(parse_index("18446744073709551616"), None);
}

#[test]
fn texts_are_compared_and_cut() {
    assert!(same("äb", "äb"));
    assert!(!same("a", "b"));
    assert_eq!(lower("AbÄ"), "abÄ");
    assert_eq!(tail_after("a.b.c", '.'), "c");
    assert_eq!(tail_after("abc", '.'), "abc");
    assert_eq!(tail_after("abc.", '.'), "");
    assert_eq!(joined("ä", "b"), "äb");
    assert!(is_listed(&vec!["a".to_owned()], "a"));
    assert!(!is_listed(&vec![], "a"));
}
