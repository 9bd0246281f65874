//! The one shape that every scanner and parser message takes.

use vstd::prelude::*;
use vstd::string::StringExecFns;
use crate::text::{decimal, push_decimal};

verus! {

/// `"[Line N] Error: <message>"` as a sequence of characters.
pub open spec fn error_text(line: nat, message: Seq<char>) -> Seq<char> {
    "[Line "@ + decimal(line) + "] Error: "@ + message
}

/// Formats a message that is tied to a source line.
pub fn new_error_string(line: usize, message: &str) -> (text: String)
    ensures
        text@ == error_text(line as nat, message@),
{
    let mut text = String::from_str("[Line ");
    push_decimal(&mut text, line as u64);
    text.append("] Error: ");
    text.append(message);
    text
}

} // verus!
