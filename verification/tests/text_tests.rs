use dbbridge::text::{eq_ci, str_eq, u64_to_string};

#[test]
fn string_equality_is_by_characters() {
    assert!(str_eq("", ""));
    assert!(str_eq("abc", "abc"));
    assert!(!str_eq("abc", "abd"));
    assert!(!str_eq("abc", "ab"));
    assert!(str_eq("héllo wörld", "héllo wörld"));
    assert!(!str_eq("héllo", "hello"));
}

#[test]
fn case_folding_touches_only_ascii_letters() {
    assert!(eq_ci('a', 'A'));
    assert!(eq_ci('Z', 'z'));
    assert!(eq_ci('7', '7'));
    assert!(!eq_ci('a', 'b'));
    // non-ASCII letters are compared exactly
    assert!(!eq_ci('ſ', 's'));
    assert!(eq_ci('é', 'é'));
    assert!(!eq_ci('é', 'É'));
}

#[test]
fn decimal_rendering_has_no_leading_zeros() {
    assert_eq!(u64_to_string(10), "10");
    assert_eq!(u64_to_string(100), "100");
    assert_eq!(u64_to_string(5432), "5432");
}
