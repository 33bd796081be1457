//! The client side of the store's protocol: what to do with a line the
//! user typed.

use vstd::prelude::*;

use crate::text::{chars_eq_str, chars_of, string_of, trim, trim_chars};

verus! {

/// What the client does with one line of input.
pub enum ClientStep {
    /// Leave the session.
    Exit,
    /// Send this command to the server.
    Send(String),
}

/// Reads one typed line: `exit` (surrounding whitespace aside) ends the
/// session, anything else is sent trimmed.
pub fn client_step(input: &str) -> (step: ClientStep)
    ensures
        match step {
            ClientStep::Exit => trim(input@) == "exit"@,
            ClientStep::Send(c) => trim(input@) != "exit"@ && c@ == trim(input@),
        },
{
    let c = chars_of(input);
    let t = trim_chars(c.as_slice());
    if chars_eq_str(t.as_slice(), "exit") {
        ClientStep::Exit
    } else {
        ClientStep::Send(string_of(t.as_slice()))
    }
}

} // verus!
