//! How directory entries are described in a listing.

use vstd::prelude::*;

use crate::text::{chars_of, push_str, string_of};

verus! {

/// The line describing a directory entry: its kind, a colon and its name.
pub open spec fn entry_line_text(is_dir: bool, name: Seq<char>) -> Seq<char> {
    (if is_dir {
        "Directory"@
    } else {
        "File"@
    }) + ": "@ + name
}

/// Describes a directory entry as `Directory: name` or `File: name`.
pub fn entry_line(is_dir: bool, name: &str) -> (line: String)
    ensures
        line@ == entry_line_text(is_dir, name@),
{
    let mut v = if is_dir {
        chars_of("Directory")
    } else {
        chars_of("File")
    };
    push_str(&mut v, ": ");
    push_str(&mut v, name);
    string_of(v.as_slice())
}

} // verus!
