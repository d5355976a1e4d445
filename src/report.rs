//! Messages for diagnostics that carry a line number.
use vstd::prelude::*;

use crate::number::{decimal_chars, decimal_string};

verus! {

/// `[line [N] Error where: place: message] `.
pub open spec fn report_text(line: nat, col_loc: Seq<char>, msg: Seq<char>) -> Seq<char> {
    "[line ["@ + decimal_chars(line) + "] Error where: "@ + col_loc + ": "@ + msg + "] "@
}

/// The message for an error at `line`, where `col_loc` says where on the line.
pub fn report(line: u32, col_loc: &str, msg: &str) -> (r: String)
    ensures
        r@ == report_text(line as nat, col_loc@, msg@),
{
    let mut s = String::from_str("[line [");
    s.append(decimal_string(line as u64).as_str());
    s.append("] Error where: ");
    s.append(col_loc);
    s.append(": ");
    s.append(msg);
    s.append("] ");
    s
}

/// The message for an error at `line`, with no place on the line.
pub fn error(line: u32, msg: &str) -> (r: String)
    ensures
        r@ == report_text(line as nat, ""@, msg@),
{
    report(line, "", msg)
}

} // verus!
