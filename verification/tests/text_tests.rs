use anda_engine::text::{contains_text, join, precedes, same_text, starts_with, strip_prefix};

#[test]
fn prefix_is_recognised_and_removed() {
    assert!(starts_with("RT_x1lookup", "RT_"));
    assert!(!starts_with("RT", "RT_"));
    assert_eq!(strip_prefix("RT_x1lookup", "RT_"), Some("x1lookup"));
    assert_eq!(strip_prefix("weather", "RT_"), None);
    assert_eq!(strip_prefix("abc", ""), Some("abc"));
}

#[test]
fn text_equality_and_order() {
    assert!(same_text("weather", "weather"));
    assert!(!same_text("weather", "weathers"));
    assert!(precedes("x", "x1"));
    assert!(!precedes("x1", "x"));
    assert!(precedes("a", "b"));
    assert!(!precedes("a", "a"));
    assert!(precedes("", "a"));
    assert!(contains_text(&["a", "b"], "b"));
    assert!(!contains_text(&["a", "b"], "c"));
    assert_eq!(join("RT_", "x1"), "RT_x1");
}
