use ns_rules::NamespaceMatcher;
use ns_rules::PatternError;

#[test]
fn can_match_full_namespace() {
    let matcher = NamespaceMatcher::from_str("shipping.domain.ship").unwrap();

    assert!(matcher.matches("shipping.domain.ship"));
    assert!(!matcher.matches("shipping.domain.port"));
}

#[test]
fn can_match_wildcard_within_namespace() {
    let matcher = NamespaceMatcher::from_str("shipping.dom*.ship").unwrap();

    assert!(matcher.matches("shipping.domain.ship"));
    assert!(matcher.matches("shipping.domestic.ship"));
    assert!(!matcher.matches("shipping.use-case.routing"));
    assert!(!matcher.matches("shipping.domain.port"));
}

#[test]
fn can_match_wildcard_sub_namespace() {
    let matcher = NamespaceMatcher::from_str("shipping.use-case.*").unwrap();

    assert!(matcher.matches("shipping.use-case.routing"));
    assert!(matcher.matches("shipping.use-case.contract-verification"));
    assert!(matcher.matches("shipping.use-case.routing.route"));
    assert!(!matcher.matches("shipping.use-case"));
    assert!(!matcher.matches("shipping.domain.ship"));
    assert!(!matcher.matches("flying.use-case.routing"));
}

#[test]
fn reports_error_on_invalid_namespace() {
    assert!(NamespaceMatcher::from_str("shipping.use case.routing").is_err());
    assert!(NamespaceMatcher::from_str("").is_err());
    assert!(NamespaceMatcher::from_str(".").is_err());
    assert!(NamespaceMatcher::from_str(".use-case").is_err());
    assert!(NamespaceMatcher::from_str("use-case.").is_err());
}

#[test]
fn literal_pattern_matches_itself_and_nothing_else() {
    let matcher = NamespaceMatcher::from_str("a.b").unwrap();

    assert!(matcher.matches("a.b"));
    assert!(!matcher.matches("a.bc"));
    assert!(!matcher.matches("a"));
    assert!(!matcher.matches("a.b.c"));
    assert!(!matcher.matches("ab"));
    assert!(!matcher.matches(""));
}

#[test]
fn plain_wildcard_consumes_one_segment_only() {
    let matcher = NamespaceMatcher::from_str("a.b*.c").unwrap();

    assert!(matcher.matches("a.bar.c"));
    assert!(matcher.matches("a.bx.c"));
    assert!(!matcher.matches("a.b.c.d"));
    assert!(!matcher.matches("a.bar.cx"));
    assert!(!matcher.matches("a.b.c"));
}

#[test]
fn recursive_pattern_needs_a_suffix() {
    let matcher = NamespaceMatcher::from_str("a.b.*").unwrap();

    assert!(matcher.matches("a.b.c"));
    assert!(matcher.matches("a.b.c.d"));
    assert!(!matcher.matches("a.b"));
    assert!(!matcher.matches("x.b.c"));
}

#[test]
fn compilation_rejects_each_malformed_pattern() {
    assert_eq!(NamespaceMatcher::from_str("").unwrap_err(), PatternError::Empty);
    assert_eq!(NamespaceMatcher::from_str("a b").unwrap_err(), PatternError::ContainsSpace);
    assert_eq!(NamespaceMatcher::from_str(".").unwrap_err(), PatternError::EdgeDot);
    assert_eq!(NamespaceMatcher::from_str(".a").unwrap_err(), PatternError::EdgeDot);
    assert_eq!(NamespaceMatcher::from_str("a.").unwrap_err(), PatternError::EdgeDot);
    assert_eq!(NamespaceMatcher::from_str(" .").unwrap_err(), PatternError::ContainsSpace);
}

#[test]
fn error_messages_name_each_rejection() {
    assert_eq!(PatternError::Empty.message(), "namespace patterns cannot be empty");
    assert_eq!(PatternError::ContainsSpace.message(), "namespace patterns cannot contains spaces");
    assert_eq!(
        PatternError::EdgeDot.message(),
        "namespace patterns cannot start with or end with '.'"
    );
}

#[test]
fn segment_wildcard_requires_at_least_one_character() {
    let matcher = NamespaceMatcher::from_str("a*").unwrap();

    assert!(matcher.matches("ab"));
    assert!(matcher.matches("a5"));
    assert!(matcher.matches("a-x"));
    assert!(!matcher.matches("a"));
    assert!(!matcher.matches("a.b"));
}

#[test]
fn lone_wildcard_matches_single_segments_only() {
    let matcher = NamespaceMatcher::from_str("*").unwrap();

    assert!(matcher.matches("abc"));
    assert!(matcher.matches("use-case"));
    assert!(!matcher.matches("a.b"));
    assert!(!matcher.matches(""));
}

#[test]
fn wildcard_in_middle_segment_is_not_recursive() {
    let matcher = NamespaceMatcher::from_str("a.*.c").unwrap();

    assert!(matcher.matches("a.b.c"));
    assert!(matcher.matches("a.bx.c"));
    assert!(!matcher.matches("a.b.x.c"));
    assert!(!matcher.matches("a.c"));
}

#[test]
fn matches_bytes_agrees_with_matches() {
    let matcher = NamespaceMatcher::from_str("shipping.domain.ship").unwrap();

    assert!(matcher.matches_bytes(b"shipping.domain.ship"));
    assert!(!matcher.matches_bytes(b"shipping.domain.port"));
}

#[test]
fn matching_is_anchored_not_substring_search() {
    let matcher = NamespaceMatcher::from_str("b.c").unwrap();

    assert!(matcher.matches("b.c"));
    assert!(!matcher.matches("a.b.c"));
    assert!(!matcher.matches("b.c.d"));
}
