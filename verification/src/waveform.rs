//! Reading the frequency out of a wave equation such as `sin(2*pi*5*x)`.

use vstd::prelude::*;

use crate::text::{chars_of, contains, contains_chars};

verus! {

/// The text of the first capture group of the leftmost-first match of the
/// regular expression `pattern` in `text`, if there is a match (and the
/// pattern is valid).
pub uninterp spec fn regex_group1(pattern: Seq<char>, text: Seq<char>) -> Option<Seq<char>>;

/// The pattern that finds the argument of `sin( ... )`.
pub open spec fn sin_pattern() -> Seq<char> {
    "sin\\s*\\(\\s*([\\d\\.\\+\\-\\*\\/x]+)\\s*\\)"@
}

/// The pattern that finds the frequency `f` in `2 * <number> * f * x`.
pub open spec fn frequency_pattern() -> Seq<char> {
    "2\\s*\\*\\s*[\\d\\.]+\\s*\\*\\s*([\\d\\.]+)\\s*\\*\\s*x"@
}

/// Finds the first capture group of `pattern` in `text` with the `regex`
/// crate (`Regex::new`, `Regex::captures`, `Captures::get`).  Trusted: the
/// result is the named value `regex_group1(pattern, text)`; an invalid
/// pattern gives `None`.
#[verifier::external_body]
fn first_group(pattern: &str, text: &str) -> (r: Option<String>)
    ensures
        match r {
            Some(s) => regex_group1(pattern@, text@) == Some(s@),
            None => regex_group1(pattern@, text@) is None,
        },
{
    let re = match regex::Regex::new(pattern) {
        Ok(re) => re,
        Err(_) => return None,
    };
    match re.captures(text) {
        Some(c) => match c.get(1) {
            Some(m) => Some(m.as_str().to_string()),
            None => None,
        },
        None => None,
    }
}

/// The frequency text of a wave equation: present when the equation holds
/// `sin`, its `sin( ... )` argument holds both `2*` and `*x`, and that
/// argument has the form `2 * <number> * f * x`.
pub open spec fn frequency_text_of(expr: Seq<char>) -> Option<Seq<char>> {
    if !contains(expr, "sin"@) {
        None
    } else {
        match regex_group1(sin_pattern(), expr) {
            None => None,
            Some(inner) => if contains(inner, "2*"@) && contains(inner, "*x"@) {
                regex_group1(frequency_pattern(), inner)
            } else {
                None
            },
        }
    }
}

/// A wave equation, kept as text.
pub struct SimpleExprParser {
    pub expr: String,
}

impl SimpleExprParser {
    /// Takes an equation; every text is accepted.
    pub fn new(expr: &str) -> (r: Result<Self, String>)
        ensures
            r matches Ok(p) && p.expr@ == expr@,
    {
        Ok(SimpleExprParser { expr: expr.to_string() })
    }

    /// The frequency written in the equation, as text, if the equation has
    /// the recognised form; the caller reads the number from it and falls
    /// back to a frequency of 1 otherwise.
    pub fn frequency_text(&self) -> (r: Option<String>)
        ensures
            match r {
                Some(f) => frequency_text_of(self.expr@) == Some(f@),
                None => frequency_text_of(self.expr@) is None,
            },
    {
        let e = chars_of(self.expr.as_str());
        let sin = chars_of("sin");
        if !contains_chars(e.as_slice(), sin.as_slice()) {
            return None;
        }
        let sin_re = "sin\\s*\\(\\s*([\\d\\.\\+\\-\\*\\/x]+)\\s*\\)";
        match first_group(sin_re, self.expr.as_str()) {
            None => None,
            Some(inner) => {
                let ic = chars_of(inner.as_str());
                let two = chars_of("2*");
                let x = chars_of("*x");
                if contains_chars(ic.as_slice(), two.as_slice()) && contains_chars(
                    ic.as_slice(),
                    x.as_slice(),
                ) {
                    let freq_re = "2\\s*\\*\\s*[\\d\\.]+\\s*\\*\\s*([\\d\\.]+)\\s*\\*\\s*x";
                    first_group(freq_re, inner.as_str())
                } else {
                    None
                }
            },
        }
    }
}

} // verus!
