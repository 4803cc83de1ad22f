use rsrv::text::{
    contains_str, eq_lower, parse_usize, remove_all, split_str, starts_with, str_eq,
    usize_to_string,
};

#[test]
fn splitting_keeps_empty_pieces() {
    assert_eq!(split_str("a: b: c", ": "), vec!["a", "b", "c"]);
    assert_eq!(split_str("GET /", " "), vec!["GET", "/"]);
    assert_eq!(split_str("ab: ", ": "), vec!["ab", ""]);
    assert_eq!(split_str(": ab", ": "), vec!["", "ab"]);
    assert_eq!(split_str("nosep", ": "), vec!["nosep"]);
    assert_eq!(split_str("", " "), vec![""]);
}

#[test]
fn removal_drops_every_occurrence() {
    assert_eq!(remove_all("--port=3000", "--port=").as_str(), "3000");
    assert_eq!(remove_all("aXbXc", "X").as_str(), "abc");
    assert_eq!(remove_all("plain", "X").as_str(), "plain");
}

#[test]
fn containment_and_prefixes_match_exactly() {
    assert!(contains_str("gzip, deflate", "gzip"));
    assert!(!contains_str("deflate", "gzip"));
    assert!(contains_str("anything", ""));
    assert!(starts_with("/srv/a/x", "/srv/a"));
    assert!(!starts_with("/srv", "/srv/a"));
    assert!(str_eq("same", "same"));
    assert!(!str_eq("same", "Same"));
}

#[test]
fn case_folding_is_ascii_only() {
    assert!(eq_lower("HTML", "html"));
    assert!(eq_lower("hTm", "htm"));
    assert!(!eq_lower("HTM", "html"));
    assert!(!eq_lower("unicodé", "unicode"));
}

#[test]
fn numbers_parse_and_render_in_decimal() {
    assert_eq!(parse_usize("0"), Some(0));
    assert_eq!(parse_usize("8080"), Some(8080));
    assert_eq!(parse_usize("+42"), Some(42));
    assert_eq!(parse_usize(""), None);
    assert_eq!(parse_usize("+"), None);
    assert_eq!(parse_usize("12a"), None);
    assert_eq!(parse_usize("-1"), None);
    assert_eq!(parse_usize("99999999999999999999999999"), None);
    assert_eq!(usize_to_string(0).as_str(), "0");
    assert_eq!(usize_to_string(907).as_str(), "907");
    assert_eq!(usize_to_string(usize::MAX).as_str(), usize::MAX.to_string());
}
