//! The CRAP check: `cargo crap4rust` over the packages, judged by the report
//! it prints rather than by its exit code.
use vstd::prelude::*;
use crate::console::emit_line;
use crate::crap::crap_report::{CrapReport, offenders_of, describe_spec, summary_spec, report_decodable};
use crate::crap::crap_report_parser::{CrapReportParser, parses_to, report_text, not_found_message};
use crate::crap::json::json_document;
use crate::gates::gate::Gate;
use crate::gates::tool::{
    package_flags, install_hint_spec, exit_code_text_spec, outcome_view,
    push_package_flags, install_hint, exit_code_text,
};
use crate::process::command_outcome::CommandOutcome;
use crate::process::command_runner::CommandRunner;
use crate::text::{texts, chars_of, push_str, push_all, push_decimal, decimal_spec, string_of, lines_of, lines_spec, join_chars, join_spec, views};

verus! {

/// The cargo subcommand the check runs.
pub open spec fn crap_binary() -> Seq<char> {
    seq!['c', 'a', 'r', 'g', 'o', '-', 'c', 'r', 'a', 'p', '4', 'r', 'u', 's', 't']
}

/// How many of the last lines of the tool's output an error carries.
pub open spec fn tail_lines() -> nat {
    30
}

/// The arguments handed to `cargo`: the tool is told to warn only and to
/// print its report as JSON, so that the verdict never rests on prose.
pub open spec fn crap_args(
    manifest_path: Seq<char>,
    packages: Seq<Seq<char>>,
    threshold: Seq<char>,
) -> Seq<Seq<char>> {
    seq![seq!['c', 'r', 'a', 'p', '4', 'r', 'u', 's', 't'], seq!['-', '-', 'm', 'a', 'n', 'i', 'f', 'e', 's', 't', '-', 'p', 'a', 't', 'h'], manifest_path] + package_flags(packages) + seq![
        seq!['-', '-', 'w', 'a', 'r', 'n', '-', 'o', 'n', 'l', 'y'],
        seq!['-', '-', 't', 'h', 'r', 'e', 's', 'h', 'o', 'l', 'd'],
        threshold,
        seq!['-', '-', 'o', 'u', 't', 'p', 'u', 't', '-', 'f', 'o', 'r', 'm', 'a', 't'],
        seq!['j', 's', 'o', 'n'],
    ]
}

/// The last lines of `stdout`, at most `tail_lines` of them, in order and
/// joined with line breaks.
pub open spec fn tail_spec(stdout: Seq<char>) -> Seq<char> {
    let lines = lines_spec(stdout);
    let skipped = if lines.len() > tail_lines() {
        lines.len() - tail_lines()
    } else {
        0
    };
    join_spec(lines.skip(skipped), '\n')
}

/// What follows the parser's error when no report could be read: the exit
/// code, the tool's standard error, and the tail of its standard output.
pub open spec fn unreadable_context(outcome: CommandOutcome) -> Seq<char> {
    seq![' ', '(', 'e', 'x', 'i', 't', ' ', 'c', 'o', 'd', 'e', ' '] + exit_code_text_spec(outcome.exit_code) + seq![')'] + seq!['\n']
        + seq!['s', 't', 'd', 'e', 'r', 'r', ':', ' '] + outcome.stderr@ + seq!['\n'] + seq!['s', 't', 'd', 'o', 'u', 't', ' ', 't', 'a', 'i', 'l', ':'] + seq!['\n']
        + tail_spec(outcome.stdout@)
}

/// The error for a report in which `crappy` functions reached the threshold.
pub open spec fn crappy_message(crappy: u64) -> Seq<char> {
    decimal_spec(crappy as nat) + seq![' ', 'c', 'r', 'a', 'p', 'p', 'y', ' ', 'f', 'u', 'n', 'c', 't', 'i', 'o', 'n', 's', ' ', 'd', 'e', 't', 'e', 'c', 't', 'e', 'd']
}

/// Whether `r` is the error for output whose report could not be read: the
/// parser's own error, then the exit code, the standard error and the tail
/// of the standard output.
pub open spec fn unreadable(outcome: CommandOutcome, r: Result<(), Seq<char>>) -> bool {
    exists|e: String|
        #![trigger parses_to(outcome.stdout@, Err::<CrapReport, String>(e))]
        parses_to(outcome.stdout@, Err::<CrapReport, String>(e)) && r == Err::<(), Seq<char>>(
            e@ + unreadable_context(outcome),
        )
}

/// Whether `r` is the check's judgement of what the tool left behind: the
/// report decides, the exit code only colouring an error where no report
/// could be read, since the tool exits non-zero as soon as a function
/// reaches the threshold.
pub open spec fn judged(outcome: CommandOutcome, r: Result<(), Seq<char>>) -> bool {
    match report_text(outcome.stdout@) {
        None => r == Err::<(), Seq<char>>(not_found_message() + unreadable_context(outcome)),
        Some(t) => match json_document(t) {
            Ok(j) => if report_decodable(j) {
                exists|rep: CrapReport|
                    #![trigger parses_to(outcome.stdout@, Ok::<CrapReport, String>(rep))]
                    parses_to(outcome.stdout@, Ok::<CrapReport, String>(rep)) && r == if rep.crappy_functions == 0 {
                        Ok::<(), Seq<char>>(())
                    } else {
                        Err(crappy_message(rep.crappy_functions))
                    }
            } else {
                unreadable(outcome, r)
            },
            Err(_) => unreadable(outcome, r),
        },
    }
}

/// Where the tool printed a report that can be read, its exit code decides
/// nothing: the tool exits non-zero as soon as a function reaches the
/// threshold, even when told to warn only.
pub proof fn readable_report_outweighs_exit_code(
    first: CommandOutcome,
    second: CommandOutcome,
    r: Result<(), Seq<char>>,
)
    requires
        first.stdout@ == second.stdout@,
        report_text(first.stdout@) matches Some(t) && json_document(t) matches Ok(j)
            && report_decodable(j),
    ensures
        judged(first, r) == judged(second, r),
{
}

pub struct CrapGate<'a> {
    runner: &'a dyn CommandRunner,
    parser: &'a CrapReportParser,
    manifest_path: String,
    packages: Vec<String>,
    threshold: String,
}

impl<'a> CrapGate<'a> {
    pub fn new(
        runner: &'a dyn CommandRunner,
        parser: &'a CrapReportParser,
        manifest_path: String,
        packages: Vec<String>,
        threshold: String,
    ) -> (r: Self)
        ensures
            r.manifest_path() == manifest_path@,
            r.packages() == texts(packages@),
            r.threshold() == threshold@,
    {
        CrapGate { runner, parser, manifest_path, packages, threshold }
    }

    /// The manifest the tool is pointed at.
    pub closed spec fn manifest_path(&self) -> Seq<char> {
        self.manifest_path@
    }

    /// The packages the tool is asked about, in order.
    pub closed spec fn packages(&self) -> Seq<Seq<char>> {
        texts(self.packages@)
    }

    /// The score at which a function counts as crappy, as text.
    pub closed spec fn threshold(&self) -> Seq<char> {
        self.threshold@
    }

    /// The last lines of `stdout`, at most thirty, in order. The lines are
    /// taken from the end, so the copy is bounded by the tail's length
    /// however much a failing tool printed.
    pub fn tail(stdout: &str) -> (r: String)
        ensures
            r@ == tail_spec(stdout@),
    {
        let lines = lines_of(&chars_of(stdout));
        let ghost ls = views(lines@);
        let n = lines.len();
        let skipped: usize = if n > 30 {
            n - 30
        } else {
            0
        };
        let mut kept: Vec<Vec<char>> = Vec::new();
        let mut i: usize = skipped;
        while i < n
            invariant
                skipped <= i <= n,
                n == lines.len(),
                ls == views(lines@),
                views(kept@) == ls.subrange(skipped as int, i as int),
            decreases n - i,
        {
            let ghost before = views(kept@);
            let line = lines[i].clone();
            let ghost lv = line@;
            kept.push(line);
            proof {
                assert(views(kept@) =~= before.push(lv));
                assert(ls.subrange(skipped as int, i + 1) =~= ls.subrange(skipped as int, i as int).push(
                    ls[i as int],
                ));
            }
            i = i + 1;
        }
        assert(ls.subrange(skipped as int, n as int) =~= ls.skip(skipped as int));
        string_of(join_chars(&kept, '\n').as_slice())
    }

    /// The arguments the check hands to `cargo`.
    pub fn args(&self) -> (r: Vec<String>)
        ensures
            texts(r@) == crap_args(self.manifest_path(), self.packages(), self.threshold()),
    {
        let tool = string_of(chars_of("crap4rust").as_slice());
        let manifest_flag = string_of(chars_of("--manifest-path").as_slice());
        let manifest = self.manifest_path.clone();
        proof {
            reveal_strlit("crap4rust");
            reveal_strlit("--manifest-path");
        }
        let mut args: Vec<String> = Vec::new();
        args.push(tool);
        args.push(manifest_flag);
        args.push(manifest);
        assert(texts(args@) =~~= seq![seq!['c', 'r', 'a', 'p', '4', 'r', 'u', 's', 't'], seq!['-', '-', 'm', 'a', 'n', 'i', 'f', 'e', 's', 't', '-', 'p', 'a', 't', 'h'], self.manifest_path()]);
        push_package_flags(&mut args, &self.packages);
        let ghost head = texts(args@);
        let warn = string_of(chars_of("--warn-only").as_slice());
        let threshold_flag = string_of(chars_of("--threshold").as_slice());
        let threshold = self.threshold.clone();
        let format_flag = string_of(chars_of("--output-format").as_slice());
        let format = string_of(chars_of("json").as_slice());
        proof {
            reveal_strlit("--warn-only");
            reveal_strlit("--threshold");
            reveal_strlit("--output-format");
            reveal_strlit("json");
        }
        args.push(warn);
        args.push(threshold_flag);
        args.push(threshold);
        args.push(format_flag);
        args.push(format);
        assert(texts(args@) =~~= head + seq![
            seq!['-', '-', 'w', 'a', 'r', 'n', '-', 'o', 'n', 'l', 'y'],
            seq!['-', '-', 't', 'h', 'r', 'e', 's', 'h', 'o', 'l', 'd'],
            self.threshold(),
            seq!['-', '-', 'o', 'u', 't', 'p', 'u', 't', '-', 'f', 'o', 'r', 'm', 'a', 't'],
            seq!['j', 's', 'o', 'n'],
        ]);
        args
    }

    /// The check's judgement of what the tool left behind. The report's
    /// summary is printed, and each offender when the report is not clean.
    pub fn judge(&self, outcome: &CommandOutcome) -> (r: Result<(), String>)
        ensures
            judged(*outcome, outcome_view(r)),
    {
        let parsed = self.parser.parse(outcome.stdout.as_str());
        let report = match parsed {
            Ok(report) => report,
            Err(error) => {
                let mut out = chars_of(error.as_str());
                push_str(&mut out, " (exit code ");
                let code = exit_code_text(outcome.exit_code);
                push_str(&mut out, code.as_str());
                push_str(&mut out, ")\nstderr: ");
                push_str(&mut out, outcome.stderr.as_str());
                push_str(&mut out, "\nstdout tail:\n");
                let tail = Self::tail(outcome.stdout.as_str());
                push_str(&mut out, tail.as_str());
                let m = string_of(out.as_slice());
                proof {
                    reveal_strlit(" (exit code ");
                    reveal_strlit(")\nstderr: ");
                    reveal_strlit("\nstdout tail:\n");
                    assert(m@ =~= error@ + unreadable_context(*outcome));
                    assert(parses_to(outcome.stdout@, Err::<CrapReport, String>(error)));
                }
                return Err(m);
            },
        };
        emit_line(report.summary().as_str());
        if report.is_clean() {
            return Ok(());
        }
        let offenders = report.offenders();
        let mut i: usize = 0;
        while i < offenders.len()
            invariant
                i <= offenders.len(),
            decreases offenders.len() - i,
        {
            let mut line = chars_of("  ");
            push_str(&mut line, offenders[i].describe().as_str());
            emit_line(string_of(line.as_slice()).as_str());
            i = i + 1;
        }
        let mut out: Vec<char> = Vec::new();
        push_decimal(&mut out, report.crappy_functions);
        push_str(&mut out, " crappy functions detected");
        let m = string_of(out.as_slice());
        proof {
            reveal_strlit(" crappy functions detected");
            assert(m@ =~= crappy_message(report.crappy_functions));
        }
        Err(m)
    }
}

impl Gate for CrapGate<'_> {
    fn label(&self) -> (r: String)
        ensures
            r@ == seq!['C', 'R', 'A', 'P'],
    {
        let l = string_of(chars_of("CRAP").as_slice());
        proof {
            reveal_strlit("CRAP");
            assert(l@ =~= seq!['C', 'R', 'A', 'P']);
        }
        l
    }

    /// Fails with an install hint when the tool is missing; otherwise runs it
    /// with `args` and passes on a launch error, or decides by `judge`.
    /// Which of these happens rests on what the runner answers, of which
    /// nothing is known, so no contract is stated here: `args` and `judge`
    /// carry it.
    fn run(&self) -> (r: Result<(), String>) {
        let binary = "cargo-crap4rust";
        proof {
            reveal_strlit("cargo-crap4rust");
            assert(binary@ =~= crap_binary());
        }
        if !self.runner.is_available(binary) {
            return Err(install_hint(binary));
        }
        let args = self.args();
        let outcome = match self.runner.run_capturing("cargo", args.as_slice()) {
            Ok(outcome) => outcome,
            Err(error) => return Err(error),
        };
        self.judge(&outcome)
    }
}

} // verus!
