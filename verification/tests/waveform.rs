use workbench::files::entry_line;
use workbench::waveform::SimpleExprParser;

fn freq(expr: &str) -> Option<String> {
    SimpleExprParser::new(expr).ok().expect("parser").frequency_text()
}

#[test]
fn frequency_of_a_sine() {
    assert_eq!(freq("sin(2*3.141592653589793*5*x)"), Some("5".to_string()));
    assert_eq!(freq("sin( 2*3.14*2.5*x )"), Some("2.5".to_string()));
    assert_eq!(freq("sin(2 * 3.14 * 2.5 * x)"), None);
}

#[test]
fn no_frequency_otherwise() {
    assert_eq!(freq("sin(2*3.14*x)"), None);
    assert_eq!(freq("cos(2*3.14*5*x)"), None);
    assert_eq!(freq("sin(x)"), None);
    assert_eq!(freq(""), None);
}

#[test]
fn parser_keeps_the_text() {
    assert_eq!(SimpleExprParser::new("sin(x)").ok().expect("parser").expr, "sin(x)");
}

#[test]
fn directory_entry_lines() {
    assert_eq!(entry_line(true, "src"), "Directory: src");
    assert_eq!(entry_line(false, "a.txt"), "File: a.txt");
}
