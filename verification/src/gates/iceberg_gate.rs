//! The file-risk check: `cargo iceberg4rust` over the packages, against a
//! ceiling.
use vstd::prelude::*;
use crate::gates::gate::Gate;
use crate::gates::tool::{
    package_flags, install_hint_spec, exit_code_text_spec, outcome_view,
    push_package_flags, install_hint, exit_code_text,
};
use crate::process::command_runner::CommandRunner;
use crate::text::{texts, chars_of, push_str, string_of};

verus! {

/// The cargo subcommand the check runs.
pub open spec fn iceberg_binary() -> Seq<char> {
    seq!['c', 'a', 'r', 'g', 'o', '-', 'i', 'c', 'e', 'b', 'e', 'r', 'g', '4', 'r', 'u', 's', 't']
}

/// The arguments handed to `cargo`; the ceiling travels as the text it was
/// given, so that no locale can change how it is written.
pub open spec fn iceberg_args(
    manifest_path: Seq<char>,
    packages: Seq<Seq<char>>,
    threshold: Seq<char>,
) -> Seq<Seq<char>> {
    seq![
        seq!['i', 'c', 'e', 'b', 'e', 'r', 'g', '4', 'r', 'u', 's', 't'],
        seq!['-', '-', 'm', 'a', 'n', 'i', 'f', 'e', 's', 't', '-', 'p', 'a', 't', 'h'],
        manifest_path,
        seq!['-', '-', 't', 'h', 'r', 'e', 's', 'h', 'o', 'l', 'd'],
        threshold,
    ] + package_flags(packages)
}

/// The check's outcome for the exit code of the tool: 0 passes, 2 is the
/// tool's own "offenders found", and anything else means it could not run.
pub open spec fn iceberg_verdict(code: Option<i32>, threshold: Seq<char>) -> Result<(), Seq<char>> {
    if code == Some(0i32) {
        Ok(())
    } else if code == Some(2i32) {
        Err(seq!['a', ' ', 'f', 'i', 'l', 'e', ' ', 'i', 's', ' ', 'a', 't', ' ', 'o', 'r', ' ', 'a', 'b', 'o', 'v', 'e', ' ', 't', 'h', 'e', ' ', 'c', 'e', 'i', 'l', 'i', 'n', 'g', ' ', 'o', 'f', ' '] + threshold)
    } else {
        Err(seq!['e', 'x', 'i', 't', ' ', 'c', 'o', 'd', 'e', ' '] + exit_code_text_spec(code))
    }
}

pub struct IcebergGate<'a> {
    runner: &'a dyn CommandRunner,
    manifest_path: String,
    packages: Vec<String>,
    threshold: String,
}

impl<'a> IcebergGate<'a> {
    pub fn new(
        runner: &'a dyn CommandRunner,
        manifest_path: String,
        packages: Vec<String>,
        threshold: String,
    ) -> (r: Self)
        ensures
            r.manifest_path() == manifest_path@,
            r.packages() == texts(packages@),
            r.threshold() == threshold@,
    {
        IcebergGate { runner, manifest_path, packages, threshold }
    }

    /// The manifest the tool is pointed at.
    pub closed spec fn manifest_path(&self) -> Seq<char> {
        self.manifest_path@
    }

    /// The packages the tool is asked about, in order.
    pub closed spec fn packages(&self) -> Seq<Seq<char>> {
        texts(self.packages@)
    }

    /// The ceiling, as text.
    pub closed spec fn threshold(&self) -> Seq<char> {
        self.threshold@
    }

    /// The arguments the check hands to `cargo`.
    pub fn args(&self) -> (r: Vec<String>)
        ensures
            texts(r@) == iceberg_args(self.manifest_path(), self.packages(), self.threshold()),
    {
        let tool = string_of(chars_of("iceberg4rust").as_slice());
        let manifest_flag = string_of(chars_of("--manifest-path").as_slice());
        let manifest = self.manifest_path.clone();
        let threshold_flag = string_of(chars_of("--threshold").as_slice());
        let threshold = self.threshold.clone();
        proof {
            reveal_strlit("iceberg4rust");
            reveal_strlit("--manifest-path");
            reveal_strlit("--threshold");
        }
        let mut args: Vec<String> = Vec::new();
        args.push(tool);
        args.push(manifest_flag);
        args.push(manifest);
        args.push(threshold_flag);
        args.push(threshold);
        assert(texts(args@) =~~= seq![
            seq!['i', 'c', 'e', 'b', 'e', 'r', 'g', '4', 'r', 'u', 's', 't'],
            seq!['-', '-', 'm', 'a', 'n', 'i', 'f', 'e', 's', 't', '-', 'p', 'a', 't', 'h'],
            self.manifest_path(),
            seq!['-', '-', 't', 'h', 'r', 'e', 's', 'h', 'o', 'l', 'd'],
            self.threshold(),
        ]);
        push_package_flags(&mut args, &self.packages);
        args
    }

    /// The check's outcome for the exit code of the tool.
    pub fn verdict(&self, code: Option<i32>) -> (r: Result<(), String>)
        ensures
            outcome_view(r) == iceberg_verdict(code, self.threshold()),
    {
        match code {
            Some(0) => Ok(()),
            Some(2) => {
                let mut out = chars_of("a file is at or above the ceiling of ");
                push_str(&mut out, self.threshold.as_str());
                let m = string_of(out.as_slice());
                proof {
                    reveal_strlit("a file is at or above the ceiling of ");
                    assert(m@ =~= iceberg_verdict(code, self.threshold())->Err_0);
                }
                Err(m)
            },
            _ => {
                let mut out = chars_of("exit code ");
                let text = exit_code_text(code);
                push_str(&mut out, text.as_str());
                let m = string_of(out.as_slice());
                proof {
                    reveal_strlit("exit code ");
                    assert(m@ =~= iceberg_verdict(code, self.threshold())->Err_0);
                }
                Err(m)
            },
        }
    }
}

impl Gate for IcebergGate<'_> {
    fn label(&self) -> (r: String)
        ensures
            r@ == seq!['F', 'i', 'l', 'e', ' ', 'r', 'i', 's', 'k'],
    {
        let l = string_of(chars_of("File risk").as_slice());
        proof {
            reveal_strlit("File risk");
            assert(l@ =~= seq!['F', 'i', 'l', 'e', ' ', 'r', 'i', 's', 'k']);
        }
        l
    }

    /// Fails with an install hint when the tool is missing; otherwise runs it
    /// with `args` and passes on a launch error, or decides by `verdict`.
    /// Which of these happens rests on what the runner answers, of which
    /// nothing is known, so no contract is stated here: `args` and `verdict`
    /// carry it.
    fn run(&self) -> (r: Result<(), String>) {
        let binary = "cargo-iceberg4rust";
        proof {
            reveal_strlit("cargo-iceberg4rust");
            assert(binary@ =~= iceberg_binary());
        }
        if !self.runner.is_available(binary) {
            return Err(install_hint(binary));
        }
        let args = self.args();
        let code = match self.runner.run_streaming("cargo", args.as_slice()) {
            Ok(code) => code,
            Err(error) => return Err(error),
        };
        self.verdict(code)
    }
}

} // verus!
