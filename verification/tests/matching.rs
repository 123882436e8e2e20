use fanout_core::glob::wild_match;

#[test]
fn literal_pattern_matches_itself() {
    assert!(wild_match("cat", "cat"));
    assert!(!wild_match("dog", "cat"));
}

#[test]
fn star_matches_any_run() {
    assert!(wild_match("*cat*", "dog_cat_dog"));
    assert!(wild_match("*", ""));
    assert!(wild_match("*", "anything at all"));
    assert!(!wild_match("*d", "cat"));
}

#[test]
fn question_mark_matches_exactly_one() {
    assert!(wild_match("c?t", "cat"));
    assert!(wild_match("c?t", "cot"));
    assert!(!wild_match("????", "cat"));
    assert!(!wild_match("?", "cat"));
    assert!(!wild_match("?", ""));
}

#[test]
fn match_is_anchored_and_case_sensitive() {
    assert!(!wild_match("cat", "a cat"));
    assert!(!wild_match("cat", "cats"));
    assert!(!wild_match("Cat", "cat"));
}

#[test]
fn empty_pattern_matches_only_empty() {
    assert!(wild_match("", ""));
    assert!(!wild_match("", "x"));
}

#[test]
fn path_patterns() {
    assert!(wild_match("/api/admin/classes/*", "/api/admin/classes/5"));
    assert!(wild_match("/api/admin/classes/*", "/api/admin/classes/"));
    assert!(!wild_match("/api/admin/classes/*", "/api/admin/classes"));
    assert!(wild_match("/api/*/classes/?", "/api/admin/classes/7"));
}

#[test]
fn agrees_with_reference_matcher() {
    let cases = [
        ("cat", "cat"),
        ("*cat*", "dog_cat_dog"),
        ("c?t", "cat"),
        ("c*", "cat"),
        ("*", ""),
        ("?", ""),
        ("a*b*c", "axxbyyc"),
        ("a*b*c", "axxbyy"),
        ("a**b", "ab"),
        ("*?", "x"),
        ("?*", ""),
        ("/api/admin/*", "/api/admin/users/3"),
        ("/api/?dmin", "/api/admin"),
        ("*a*a*a*", "aaaa"),
        ("*a*a*a*", "bbbb"),
        ("m*ss?ss?pp*", "mississippi"),
        ("m*ss?ss?pp*i", "mississippi"),
    ];
    for (pattern, text) in cases {
        assert_eq!(
            wild_match(pattern, text),
            wildmatch::WildMatch::new(pattern).matches(text),
            "pattern {:?} against {:?}",
            pattern,
            text
        );
    }
}

#[test]
fn adversarial_patterns_stay_fast() {
    // A backtracking matcher degrades exponentially on runs of stars; the
    // table-based one must answer these within the blink of an eye.
    let text: String = std::iter::repeat('a').take(2000).collect();
    assert!(wild_match("*a*a*a*a*a*a*a*a*a*a*", &text));
    let mut pattern = String::new();
    for _ in 0..10 {
        pattern.push('*');
        pattern.push('a');
    }
    pattern.push('b');
    assert!(!wild_match(&pattern, &text));
}
