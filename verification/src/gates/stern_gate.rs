//! The house-rules check: `cargo stern4rust` over the packages.
use vstd::prelude::*;
use crate::gates::gate::Gate;
use crate::gates::tool::{
    package_flags, install_hint_spec, exit_code_text_spec, outcome_view,
    push_package_flags, install_hint, exit_code_text,
};
use crate::process::command_runner::CommandRunner;
use crate::text::{texts, chars_of, push_str, string_of};

verus! {

/// The cargo subcommand the check runs.
pub open spec fn stern_binary() -> Seq<char> {
    seq!['c', 'a', 'r', 'g', 'o', '-', 's', 't', 'e', 'r', 'n', '4', 'r', 'u', 's', 't']
}

/// The arguments handed to `cargo`.
pub open spec fn stern_args(manifest_path: Seq<char>, packages: Seq<Seq<char>>) -> Seq<Seq<char>> {
    seq![
        seq!['s', 't', 'e', 'r', 'n', '4', 'r', 'u', 's', 't'],
        seq!['-', '-', 'm', 'a', 'n', 'i', 'f', 'e', 's', 't', '-', 'p', 'a', 't', 'h'],
        manifest_path,
    ] + package_flags(packages)
}

/// The check's outcome for the exit code of the tool: 0 passes, 2 is a house
/// rule broken, and anything else is the tool failing to run at all, kept
/// apart so that a bad manifest cannot read as a clean codebase.
pub open spec fn stern_verdict(code: Option<i32>) -> Result<(), Seq<char>> {
    if code == Some(0i32) {
        Ok(())
    } else if code == Some(2i32) {
        Err(
            seq![
                'a',
                ' ',
                'h',
                'o',
                'u',
                's',
                'e',
                ' ',
                'c',
                'o',
                'd',
                'i',
                'n',
                'g',
                ' ',
                'r',
                'u',
                'l',
                'e',
                ' ',
                'w',
                'a',
                's',
                ' ',
                'b',
                'r',
                'o',
                'k',
                'e',
                'n',
            ],
        )
    } else {
        Err(
            seq![
                'c',
                'o',
                'u',
                'l',
                'd',
                ' ',
                'n',
                'o',
                't',
                ' ',
                'r',
                'u',
                'n',
                ',',
                ' ',
                'e',
                'x',
                'i',
                't',
                ' ',
                'c',
                'o',
                'd',
                'e',
                ' ',
            ] + exit_code_text_spec(code),
        )
    }
}

pub struct SternGate<'a> {
    runner: &'a dyn CommandRunner,
    manifest_path: String,
    packages: Vec<String>,
}

impl<'a> SternGate<'a> {
    pub fn new(runner: &'a dyn CommandRunner, manifest_path: String, packages: Vec<String>) -> (r:
        Self)
        ensures
            r.manifest_path() == manifest_path@,
            r.packages() == texts(packages@),
    {
        SternGate { runner, manifest_path, packages }
    }

    /// The manifest the tool is pointed at.
    pub closed spec fn manifest_path(&self) -> Seq<char> {
        self.manifest_path@
    }

    /// The packages the tool is asked about, in order.
    pub closed spec fn packages(&self) -> Seq<Seq<char>> {
        texts(self.packages@)
    }

    /// The arguments the check hands to `cargo`.
    pub fn args(&self) -> (r: Vec<String>)
        ensures
            texts(r@) == stern_args(self.manifest_path(), self.packages()),
    {
        let tool = string_of(chars_of("stern4rust").as_slice());
        let flag = string_of(chars_of("--manifest-path").as_slice());
        let manifest = self.manifest_path.clone();
        proof {
            reveal_strlit("stern4rust");
            reveal_strlit("--manifest-path");
        }
        let mut args: Vec<String> = Vec::new();
        args.push(tool);
        args.push(flag);
        args.push(manifest);
        assert(texts(args@) =~~= seq![
            seq!['s', 't', 'e', 'r', 'n', '4', 'r', 'u', 's', 't'],
            seq!['-', '-', 'm', 'a', 'n', 'i', 'f', 'e', 's', 't', '-', 'p', 'a', 't', 'h'],
            self.manifest_path(),
        ]);
        push_package_flags(&mut args, &self.packages);
        args
    }

    /// The check's outcome for the exit code of the tool.
    pub fn verdict(code: Option<i32>) -> (r: Result<(), String>)
        ensures
            outcome_view(r) == stern_verdict(code),
    {
        match code {
            Some(0) => Ok(()),
            Some(2) => {
                let m = string_of(chars_of("a house coding rule was broken").as_slice());
                proof {
                    reveal_strlit("a house coding rule was broken");
                    assert(m@ =~= stern_verdict(code)->Err_0);
                }
                Err(m)
            },
            _ => {
                let mut out = chars_of("could not run, exit code ");
                let text = exit_code_text(code);
                push_str(&mut out, text.as_str());
                let m = string_of(out.as_slice());
                proof {
                    reveal_strlit("could not run, exit code ");
                    assert(m@ =~= stern_verdict(code)->Err_0);
                }
                Err(m)
            },
        }
    }
}

impl Gate for SternGate<'_> {
    fn label(&self) -> (r: String)
        ensures
            r@ == seq!['H', 'o', 'u', 's', 'e', ' ', 'r', 'u', 'l', 'e', 's'],
    {
        proof {
            reveal_strlit("House rules");
        }
        string_of(chars_of("House rules").as_slice())
    }

    /// Fails with an install hint when the tool is missing; otherwise runs it
    /// with `args` and passes on a launch error, or decides by `verdict`.
    /// Which of these happens rests on what the runner answers, of which
    /// nothing is known, so no contract is stated here: `args` and `verdict`
    /// carry it.
    fn run(&self) -> (r: Result<(), String>) {
        let binary = "cargo-stern4rust";
        proof {
            reveal_strlit("cargo-stern4rust");
            assert(binary@ =~= stern_binary());
        }
        if !self.runner.is_available(binary) {
            return Err(install_hint(binary));
        }
        let args = self.args();
        let code = match self.runner.run_streaming("cargo", args.as_slice()) {
            Ok(code) => code,
            Err(error) => return Err(error),
        };
        Self::verdict(code)
    }
}

} // verus!
