//! Finding the report in what `cargo crap4rust` printed. The tool runs the
//! crate's own tests to gather coverage before it reports, so their output
//! comes first: the report is the last object opening at column zero, since
//! the braces nested in it are indented.
use vstd::prelude::*;
use crate::crap::crap_report::{CrapReport, report_decodable, report_decodes, report_error};
use crate::crap::json::{json_document, parse_json};
use crate::text::{chars_of, string_of, push_str, lines_of, lines_spec, join_chars, join_spec, views};

verus! {

/// The index of the last line that is exactly `{` among the first `n`.
pub open spec fn last_open_before(lines: Seq<Seq<char>>, n: int) -> Option<int>
    decreases n,
{
    if n <= 0 {
        None
    } else if lines[n - 1] == seq!['{'] {
        Some(n - 1)
    } else {
        last_open_before(lines, n - 1)
    }
}

/// The text of the report in `stdout`: its lines from the last one that is
/// exactly `{`, joined with line breaks; `None` when no line is.
pub open spec fn report_text(stdout: Seq<char>) -> Option<Seq<char>> {
    let lines = lines_spec(stdout);
    match last_open_before(lines, lines.len() as int) {
        Some(start) => Some(join_spec(lines.skip(start), '\n')),
        None => None,
    }
}

/// The error when no report is found.
pub open spec fn not_found_message() -> Seq<char> {
    seq!['c', 'o', 'u', 'l', 'd', ' ', 'n', 'o', 't', ' ', 'f', 'i', 'n', 'd', ' ', 'a', ' ', 'J', 'S', 'O', 'N', ' ', 'r', 'e', 'p', 'o', 'r', 't', ' ', 'i', 'n', ' ', 'c', 'r', 'a', 'p', '4', 'r', 'u', 's', 't', '\'', 's', ' ', 'o', 'u', 't', 'p', 'u', 't']
}

/// What every error about a report that was found but could not be read
/// starts with.
pub open spec fn unreadable_prefix() -> Seq<char> {
    seq!['c', 'o', 'u', 'l', 'd', ' ', 'n', 'o', 't', ' ', 'p', 'a', 'r', 's', 'e', ' ', 'c', 'r', 'a', 'p', '4', 'r', 'u', 's', 't', ' ', 'J', 'S', 'O', 'N', ':', ' ']
}

/// Whether `r` is what parsing `stdout` gives: the report its last object
/// describes; the not-found error when there is none; `unreadable_prefix`
/// followed by serde_json's error when that object is not well-formed JSON,
/// or by the decoder's when it is no report.
pub open spec fn parses_to(stdout: Seq<char>, r: Result<CrapReport, String>) -> bool {
    match report_text(stdout) {
        None => r matches Err(m) && m@ == not_found_message(),
        Some(t) => match json_document(t) {
            Ok(j) => if report_decodable(j) {
                r matches Ok(rep) && report_decodes(j, rep)
            } else {
                r matches Err(m) && m@ == unreadable_prefix() + report_error(j)
            },
            Err(e) => r matches Err(m) && m@ == unreadable_prefix() + e,
        },
    }
}

#[derive(Default)]
pub struct CrapReportParser;

impl CrapReportParser {
    pub fn new() -> Self {
        CrapReportParser
    }

    /// The report in `stdout`.
    pub fn parse(&self, stdout: &str) -> (r: Result<CrapReport, String>)
        ensures
            parses_to(stdout@, r),
    {
        let text = match Self::report_text(stdout) {
            Some(t) => t,
            None => {
                let m = string_of(chars_of("could not find a JSON report in crap4rust's output").as_slice());
                proof {
                    reveal_strlit("could not find a JSON report in crap4rust's output");
                    assert(m@ =~= not_found_message());
                }
                return Err(m);
            },
        };
        let parsed = parse_json(text.as_str());
        let decoded = match parsed {
            Ok(j) => CrapReport::decode(&j),
            Err(e) => Err(e),
        };
        match decoded {
            Ok(report) => Ok(report),
            Err(e) => {
                let mut out = chars_of("could not parse crap4rust JSON: ");
                push_str(&mut out, e.as_str());
                let m = string_of(out.as_slice());
                proof {
                    reveal_strlit("could not parse crap4rust JSON: ");
                    assert(out@ =~= unreadable_prefix() + e@);
                }
                Err(m)
            },
        }
    }

    /// The text of the report in `stdout`, if there is one.
    pub fn report_text(stdout: &str) -> (r: Option<String>)
        ensures
            match r {
                Some(t) => report_text(stdout@) == Some(t@),
                None => report_text(stdout@) is None,
            },
    {
        let lines = lines_of(&chars_of(stdout));
        let ghost ls = views(lines@);
        let mut n: usize = lines.len();
        while n > 0
            invariant
                n <= lines.len(),
                ls == views(lines@),
                ls == lines_spec(stdout@),
                last_open_before(ls, ls.len() as int) == last_open_before(ls, n as int),
            decreases n,
        {
            proof {
                assert(ls[n - 1] == lines@[n - 1]@);
            }
            if lines[n - 1].len() == 1 && lines[n - 1][0] == '{' {
                proof {
                    assert(lines@[n - 1]@ =~= seq!['{']);
                }
                let start = n - 1;
                let mut rest: Vec<Vec<char>> = Vec::new();
                let mut i: usize = start;
                while i < lines.len()
                    invariant
                        start <= i <= lines.len(),
                        ls == views(lines@),
                        views(rest@) == ls.subrange(start as int, i as int),
                    decreases lines.len() - i,
                {
                    let ghost before = views(rest@);
                    let line = lines[i].clone();
                    let ghost lv = line@;
                    rest.push(line);
                    proof {
                        assert(views(rest@) =~= before.push(lv));
                        assert(ls.subrange(start as int, i + 1) =~= ls.subrange(start as int, i as int).push(
                            ls[i as int],
                        ));
                    }
                    i = i + 1;
                }
                assert(ls.subrange(start as int, ls.len() as int) =~= ls.skip(start as int));
                return Some(string_of(join_chars(&rest, '\n').as_slice()));
            }
            proof {
                if lines@[n - 1]@ == seq!['{'] {
                    assert(lines@[n - 1]@.len() == 1 && lines@[n - 1]@[0] == '{');
                }
            }
            n = n - 1;
        }
        None
    }
}

} // verus!
