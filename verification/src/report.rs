//! Failure reports: the lines that describe an error and what caused it.

use vstd::prelude::*;
use vstd::string::*;

verus! {

/// The first line of a report: the operation that failed, and the error.
pub open spec fn headline(method_name: Seq<char>, message: Seq<char>) -> Seq<char> {
    method_name + "() failed: "@ + message
}

/// A further line of a report: one cause of the error above it.
pub open spec fn cause_line(message: Seq<char>) -> Seq<char> {
    "  Caused by: "@ + message
}

/// The line of a report that stands for the `i`-th message of a chain.
pub open spec fn report_line(method_name: Seq<char>, chain: Seq<String>, i: int) -> Seq<char> {
    if i == 0 {
        headline(method_name, chain[i]@)
    } else {
        cause_line(chain[i]@)
    }
}

/// The report of a failed operation, one line to each message of the chain:
/// the error itself first, then its causes from the nearest to the root.
pub fn log_error(method_name: &str, chain: &Vec<String>) -> (lines: Vec<String>)
    ensures
        lines@.len() == chain@.len(),
        forall|i: int|
            0 <= i < chain@.len() ==> (#[trigger] lines@[i])@ == report_line(
                method_name@,
                chain@,
                i,
            ),
{
    let mut lines: Vec<String> = Vec::new();
    let mut i: usize = 0;
    while i < chain.len()
        invariant
            i <= chain@.len(),
            lines@.len() == i,
            forall|k: int|
                0 <= k < i ==> (#[trigger] lines@[k])@ == report_line(method_name@, chain@, k),
        decreases chain@.len() - i,
    {
        let mut line: String = if i == 0 {
            String::from_str(method_name).concat("() failed: ")
        } else {
            String::from_str("  Caused by: ")
        };
        line.append(chain[i].as_str());
        lines.push(line);
        i = i + 1;
    }
    lines
}

} // verus!
