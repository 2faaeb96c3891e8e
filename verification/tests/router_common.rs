use stellar_router::common::is_whitespace_only;

#[test]
fn test_empty_string_is_whitespace_only() {
    assert!(is_whitespace_only(""));
}

#[test]
fn test_spaces_are_whitespace_only() {
    assert!(is_whitespace_only("   "));
}

#[test]
fn test_tab_is_whitespace_only() {
    assert!(is_whitespace_only("\t"));
}

#[test]
fn test_newline_is_whitespace_only() {
    assert!(is_whitespace_only("\n"));
}

#[test]
fn test_carriage_return_is_whitespace_only() {
    assert!(is_whitespace_only("\r"));
}

#[test]
fn test_mixed_whitespace_is_whitespace_only() {
    assert!(is_whitespace_only(" \t\n\r\x0b\x0c"));
}

#[test]
fn test_normal_name_is_not_whitespace_only() {
    assert!(!is_whitespace_only("oracle"));
}

#[test]
fn test_name_with_surrounding_spaces_is_not_whitespace_only() {
    assert!(!is_whitespace_only(" oracle "));
}

#[test]
fn unicode_space_is_not_ascii_whitespace() {
    assert!(!is_whitespace_only("\u{a0}"));
}
