use magi_core::finding_id::{generate_finding_id, normalize_category, normalize_path};
use magi_core::schema::Category;

#[test]
fn test_normalize_path_canonicalizes_separator_and_prefix() {
    assert_eq!(normalize_path("src\\x.rs"), "src/x.rs");
    assert_eq!(normalize_path("./src/x.rs"), "src/x.rs");
    assert_eq!(normalize_path("src//x.rs"), "src/x.rs");
}

#[test]
fn test_normalize_category_parity_with_python() {
    assert_eq!(normalize_category(Some("logic_error")), Category::LogicError);
    assert_eq!(normalize_category(Some(" Injection ")), Category::Injection);
    assert_eq!(normalize_category(Some("INJECTION")), Category::Injection);
    assert_eq!(normalize_category(Some("nope")), Category::Other);
    assert_eq!(normalize_category(None), Category::Other);
}

#[test]
fn test_generate_finding_id_shape() {
    let a = generate_finding_id("src/x.rs", 42, Category::LogicError);
    assert_eq!(a, generate_finding_id("src/x.rs", 42, Category::LogicError));
    assert_eq!(a.len(), 16);
    assert!(a.chars().all(|c| c.is_ascii_hexdigit()));
}

#[test]
fn test_generate_finding_id_golden_vectors_match_python() {
    assert_eq!(generate_finding_id("src/x.rs", 42, Category::LogicError), "7fb2a28931164f30");
    assert_eq!(generate_finding_id("./src/x.rs", 42, Category::LogicError), "7fb2a28931164f30");
    assert_eq!(generate_finding_id("src\\x.rs", 42, Category::LogicError), "7fb2a28931164f30");
    assert_eq!(generate_finding_id("src/x.rs", 42, Category::Injection), "0f8a878b777ce419");
    assert_eq!(generate_finding_id("src/main.rs", 1, Category::Other), "74f9783a13d7fc23");
}

#[test]
fn normalizing_a_normalized_path_changes_nothing() {
    for p in ["a\\\\b//c", "./x", "././y", "", "/", "a/./b", ".\\z"] {
        let once = normalize_path(p);
        assert_eq!(normalize_path(&once), once, "{p:?}");
    }
}

#[test]
fn leading_dot_slashes_are_stripped_before_collapsing() {
    assert_eq!(normalize_path(".//src"), "/src");
    assert_eq!(normalize_path("././y"), "y");
    assert_eq!(normalize_path("a/./b"), "a/./b");
    assert_eq!(normalize_path("///"), "/");
}

#[test]
fn every_category_slug_round_trips_through_normalization() {
    for c in [
        Category::Security,
        Category::Injection,
        Category::LogicError,
        Category::Performance,
        Category::ErrorHandling,
        Category::Maintainability,
        Category::Other,
    ] {
        assert_eq!(normalize_category(Some(c.slug())), c, "{c:?}");
    }
    assert_eq!(normalize_category(Some("error_handling")), Category::ErrorHandling);
}

#[test]
fn equivalent_paths_share_an_id_and_lines_do_not() {
    let a = generate_finding_id("./a\\b.rs", 7, Category::Security);
    let b = generate_finding_id("a/b.rs", 7, Category::Security);
    let c = generate_finding_id("a/b.rs", 8, Category::Security);
    assert_eq!(a, b);
    assert_ne!(b, c);
}

#[test]
fn a_normalized_path_holds_no_backslash_no_double_slash_and_no_leading_dot_slash() {
    assert_eq!(normalize_path("././a"), "a");
    assert_eq!(normalize_path(".//a"), "/a");
    for p in ["a\\\\b//c", ".\\.\\x", "./././/y//", "..//z", "\\\\srv\\share"] {
        let q = normalize_path(p);
        assert!(!q.contains('\\'), "{q}");
        assert!(!q.contains("//"), "{q}");
        assert!(!q.starts_with("./"), "{q}");
        assert_eq!(normalize_path(&q), q);
    }
}
