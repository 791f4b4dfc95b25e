//! Where the tool's own messages go.
use vstd::prelude::*;
use std::io::Write;

verus! {

/// Writes `line` and a line break to standard output, through
/// `std::io::Stdout` and `writeln!`; a failed write is ignored, as
/// `println!` would panic instead. Nothing is claimed of what reaches the
/// terminal.
#[verifier::external_body]
pub(crate) fn emit_line(line: &str) {
    let mut out = std::io::stdout();
    let _ = writeln!(out, "{}", line);
}

} // verus!
