use workbench::pattern::is_match;

#[test]
fn documented_example_matches() {
    assert!(is_match("aab", "c*a*b"));
}

#[test]
fn literal_and_dot_patterns() {
    assert!(is_match("abc", "abc"));
    assert!(is_match("abc", "a.c"));
    assert!(!is_match("aa", "a"));
    assert!(!is_match("", "a"));
    assert!(is_match("", ""));
}

#[test]
fn star_patterns() {
    assert!(is_match("aa", "a*"));
    assert!(is_match("ab", ".*"));
    assert!(is_match("", "a*"));
    assert!(!is_match("mississippi", "mis*is*p*."));
}

#[test]
fn dot_star_matches_every_text() {
    assert!(is_match("*", ".*"));
    assert!(is_match("*a", ".*"));
    assert!(is_match("", ".*"));
    assert!(is_match("a*b.", ".*"));
}

#[test]
fn star_repeats_the_byte_before_it() {
    assert!(!is_match("a*", "a*"));
    assert!(is_match("aaa", "a*"));
    assert!(is_match("a**", "a**"));
    assert!(!is_match("**", "a**"));
    assert!(!is_match("b", "a*"));
}

#[test]
fn leading_star_is_a_plain_byte() {
    assert!(!is_match("a", "*"));
    assert!(is_match("*", "*"));
    assert!(is_match("*b", "*b*"));
}

#[test]
fn dot_matches_one_byte() {
    assert!(is_match("\u{e9}", ".."));
    assert!(!is_match("\u{e9}", "."));
}
