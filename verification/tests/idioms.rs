use design_patterns::enum_poly::Element;
use design_patterns::matching::match_pattern;
use design_patterns::matching::is_date_format;
use design_patterns::newtype::{AccountId, UserId};
use design_patterns::sampling::random_in_range;
use design_patterns::extensions::push_if_not_exists;
use design_patterns::text::{i32_to_string, is_blank, truncate_with_ellipsis, u64_to_string};
use design_patterns::typestate::{ConnectionBuilder, Document};

#[test]
fn document_lifecycle_keeps_content() {
    let mut doc = Document::new();
    doc.write("Hello, World!");
    assert_eq!(doc.content_length(), 13);
    let doc = doc.submit_for_review();
    let mut doc = doc.request_changes("Add more content");
    doc.write(" More content added.");
    let doc = doc.submit_for_review();
    let doc = doc.approve();
    assert_eq!(doc.read(), "Hello, World! More content added.");
    let revision = doc.create_revision();
    assert_eq!(revision.content_length(), 33);
}

#[test]
fn connection_builder_reports_what_was_set() {
    let connection = ConnectionBuilder::new().host("localhost").port(8080).timeout(60).build();
    assert_eq!(connection.as_str(), "Connection to localhost:8080 (timeout: 60s)");
    let defaulted = ConnectionBuilder::new().port(443).host("example").build();
    assert_eq!(defaulted.as_str(), "Connection to example:443 (timeout: 30s)");
}

#[test]
fn ids_wrap_their_value() {
    let user = UserId::new(42);
    let account = AccountId::new(100);
    assert_eq!(user.value(), 42);
    assert_eq!(account.value(), 100);
}

#[test]
fn scores_follow_the_rules() {
    assert_eq!(Element::NumberNode(5).calculate_score(), 10);
    assert_eq!(Element::TextNode(String::from("hello")).calculate_score(), 50);
    let tree = Element::ListNode(vec![
        Element::NumberNode(5),
        Element::TextNode(String::from("ab")),
        Element::ListNode(vec![Element::NumberNode(3)]),
    ]);
    assert_eq!(tree.calculate_score(), 10 + 20 + 6);
    assert_eq!(Element::NumberNode(-7).calculate_score(), -14);
}

#[test]
fn score_guard_accepts_and_refuses() {
    let small = Element::ListNode(vec![
        Element::NumberNode(5),
        Element::TextNode(String::from("ab")),
    ]);
    assert_eq!(small.try_calculate_score(), Some(30));
    assert_eq!(Element::NumberNode(i32::MAX).try_calculate_score(), None);
    let overflowing = Element::ListNode(vec![
        Element::NumberNode(i32::MAX / 2),
        Element::NumberNode(i32::MAX / 2),
    ]);
    assert_eq!(overflowing.try_calculate_score(), None);
}

#[test]
fn transform_guard_accepts_and_refuses() {
    let fine = Element::ListNode(vec![Element::NumberNode(0)]);
    assert!(fine.can_transform());
    let blocked = Element::ListNode(vec![Element::NumberNode(i32::MAX)]);
    assert!(!blocked.can_transform());
}

#[test]
fn transform_steps_every_node() {
    let mut tree = Element::ListNode(vec![
        Element::NumberNode(5),
        Element::TextNode(String::from("hello")),
    ]);
    tree.transform();
    match tree {
        Element::ListNode(items) => {
            assert!(matches!(items[0], Element::NumberNode(15)));
            match &items[1] {
                Element::TextNode(s) => assert_eq!(s.as_str(), "HELLO"),
                _ => panic!("expected the text node"),
            }
        },
        _ => panic!("expected the list node"),
    }
}

#[test]
fn descriptions_are_exact() {
    assert_eq!(Element::NumberNode(5).describe().as_str(), "数字: 5");
    assert_eq!(Element::NumberNode(-12).describe().as_str(), "数字: -12");
    assert_eq!(Element::TextNode(String::from("hi")).describe().as_str(), "文本: 'hi'");
    let tree = Element::ListNode(vec![
        Element::NumberNode(5),
        Element::TextNode(String::from("hi")),
        Element::ListNode(vec![Element::NumberNode(3)]),
    ]);
    assert_eq!(tree.describe().as_str(), "列表[数字: 5, 文本: 'hi', 列表[数字: 3]]");
    assert_eq!(Element::ListNode(vec![]).describe().as_str(), "列表[]");
}

#[test]
fn signed_decimal_rendering_is_exact() {
    assert_eq!(i32_to_string(0).as_str(), "0");
    assert_eq!(i32_to_string(-1).as_str(), "-1");
    assert_eq!(i32_to_string(i32::MIN).as_str(), "-2147483648");
    assert_eq!(i32_to_string(i32::MAX).as_str(), "2147483647");
}

#[test]
fn decimal_rendering_is_exact() {
    assert_eq!(u64_to_string(0).as_str(), "0");
    assert_eq!(u64_to_string(7).as_str(), "7");
    assert_eq!(u64_to_string(42).as_str(), "42");
    assert_eq!(u64_to_string(1000).as_str(), "1000");
    assert_eq!(u64_to_string(u64::MAX).as_str(), "18446744073709551615");
}

#[test]
fn blank_strings_are_recognised() {
    assert!(is_blank(""));
    assert!(is_blank("   "));
    assert!(is_blank(" \t\n"));
    assert!(!is_blank("  x  "));
}

#[test]
fn push_if_not_exists_keeps_values_unique() {
    let mut numbers = vec![1, 2, 3];
    push_if_not_exists(&mut numbers, 2);
    assert_eq!(numbers, vec![1, 2, 3]);
    push_if_not_exists(&mut numbers, 4);
    assert_eq!(numbers, vec![1, 2, 3, 4]);
}

#[test]
fn truncation_keeps_a_prefix() {
    assert_eq!(truncate_with_ellipsis("short", 20).as_str(), "short");
    assert_eq!(truncate_with_ellipsis("hello world", 8).as_str(), "hello...");
    assert_eq!(truncate_with_ellipsis("hello world", 2).as_str(), "...");
    assert_eq!(truncate_with_ellipsis("hello world", 11).as_str(), "hello world");
}

#[test]
fn sampling_stays_in_range() {
    for _ in 0..32 {
        let r = random_in_range(1, 10);
        assert!((1..=10).contains(&r));
    }
    assert_eq!(random_in_range(7, 7), 7);
}

#[test]
fn date_shapes_are_recognised() {
    assert!(is_date_format("2023-10-05"));
    assert!(!is_date_format("2023-1-05"));
    assert!(!is_date_format("not a date"));
    assert!(!is_date_format("2023-10-055"));
}

#[test]
fn patterns_compile_and_match() {
    assert_eq!(match_pattern("^a+$", "aaa"), Some(true));
    assert_eq!(match_pattern("^a+$", "aab"), Some(false));
    assert_eq!(match_pattern("(", "anything"), None);
}
