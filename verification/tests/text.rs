use funclens::text::{str_contains, str_eq, str_order};

#[test]
fn equality_of_strings() {
    assert!(str_eq("abc", "abc"));
    assert!(!str_eq("abc", "abd"));
    assert!(!str_eq("abc", "ab"));
    assert!(str_eq("", ""));
    assert!(str_eq("héllo", "héllo"));
    assert!(!str_eq("é", "e"));
}

#[test]
fn substring_search() {
    assert!(str_contains("line_comment", "comment"));
    assert!(str_contains("comment", "comment"));
    assert!(str_contains("block_comment_x", "comment"));
    assert!(!str_contains("commen", "comment"));
    assert!(!str_contains("identifier", "comment"));
    assert!(str_contains("anything", ""));
    assert!(!str_contains("", "a"));
}

#[test]
fn order_is_bytewise_lexicographic() {
    for (a, b) in [("a", "b"), ("ab", "abc"), ("", "a"), ("Z", "a"), ("build", "build_registry"), ("é", "z")] {
        let expected = match a.cmp(b) {
            std::cmp::Ordering::Less => -1,
            std::cmp::Ordering::Equal => 0,
            std::cmp::Ordering::Greater => 1,
        };
        assert_eq!(str_order(a, b), expected, "{a:?} vs {b:?}");
        assert_eq!(str_order(b, a), -expected, "{b:?} vs {a:?}");
    }
    assert_eq!(str_order("same", "same"), 0);
    // Bytes, not characters: 'é' (0xC3 0xA9) sorts after 'z' (0x7A).
    assert_eq!(str_order("é", "z"), 1);
}
