use workbench::text::{contains_chars, join_chars, lines_of, split_at_char, split_ws, trim_chars};

fn chars(s: &str) -> Vec<char> {
    s.chars().collect()
}

fn strings(v: Vec<Vec<char>>) -> Vec<String> {
    v.into_iter().map(|c| c.into_iter().collect()).collect()
}

#[test]
fn whitespace_tokens_agree_with_std() {
    for t in ["", "  ", "a", " a  b\tc\n", "x\u{3000}y", "\u{a0}lead"] {
        let expected: Vec<String> = t.split_whitespace().map(|s| s.to_string()).collect();
        assert_eq!(strings(split_ws(&chars(t))), expected, "{:?}", t);
    }
}

#[test]
fn split_and_trim_agree_with_std() {
    for t in ["", "|", "a|b", " a | b |", "||x"] {
        let expected: Vec<String> = t.split('|').map(|s| s.to_string()).collect();
        assert_eq!(strings(split_at_char(&chars(t), '|')), expected);
        let trimmed: String = trim_chars(&chars(t)).into_iter().collect();
        assert_eq!(trimmed, t.trim());
    }
}

#[test]
fn lines_agree_with_std() {
    for t in ["", "a", "a\n", "a\r\nb", "a\n\nb\n", "x\r", "\n", "a\r\r\n"] {
        let expected: Vec<String> = t.lines().map(|s| s.to_string()).collect();
        assert_eq!(strings(lines_of(&chars(t))), expected, "{:?}", t);
    }
}

#[test]
fn contains_and_join() {
    assert!(contains_chars(&chars("hello"), &chars("ell")));
    assert!(contains_chars(&chars("hello"), &chars("")));
    assert!(!contains_chars(&chars("he"), &chars("hello")));
    let parts = vec![chars("a"), chars(""), chars("c")];
    let j: String = join_chars(&parts, &chars(", ")).into_iter().collect();
    assert_eq!(j, "a, , c");
}
