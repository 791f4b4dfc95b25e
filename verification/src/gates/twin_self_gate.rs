//! The self-analysis check: this very tool, built from the checkout being
//! changed, run over the packages.
use vstd::prelude::*;
use crate::gates::gate::Gate;
use crate::gates::tool::{package_flags, outcome_view, push_package_flags};
use crate::process::command_runner::CommandRunner;
use crate::text::{texts, chars_of, string_of};

verus! {

/// The arguments handed to `cargo`. Before `--`, `--bin` names the binary
/// cargo builds; after it, the tool gets its own `--package` flags, which a
/// virtual manifest needs, naming no single package.
pub open spec fn twin_self_args(
    binary: Seq<char>,
    manifest_path: Seq<char>,
    packages: Seq<Seq<char>>,
) -> Seq<Seq<char>> {
    seq![
        seq!['r', 'u', 'n'],
        seq!['-', '-', 'q', 'u', 'i', 'e', 't'],
        seq!['-', '-', 'b', 'i', 'n'],
        binary,
        seq!['-', '-'],
        seq!['-', '-', 'm', 'a', 'n', 'i', 'f', 'e', 's', 't', '-', 'p', 'a', 't', 'h'],
        manifest_path,
    ] + package_flags(packages)
}

/// The check's outcome for the exit code of the tool: anything but 0 means a
/// source file lacks its mirrored test.
pub open spec fn twin_self_verdict(code: Option<i32>) -> Result<(), Seq<char>> {
    if code == Some(0i32) {
        Ok(())
    } else {
        Err(seq!['s', 'o', 'u', 'r', 'c', 'e', ' ', 'f', 'i', 'l', 'e', 's', ' ', 'w', 'i', 't', 'h', 'o', 'u', 't', ' ', 'a', ' ', 'm', 'i', 'r', 'r', 'o', 'r', 'e', 'd', ' ', 't', 'e', 's', 't'])
    }
}

pub struct TwinSelfGate<'a> {
    runner: &'a dyn CommandRunner,
    binary: String,
    manifest_path: String,
    packages: Vec<String>,
}

impl<'a> TwinSelfGate<'a> {
    pub fn new(
        runner: &'a dyn CommandRunner,
        binary: String,
        manifest_path: String,
        packages: Vec<String>,
    ) -> (r: Self)
        ensures
            r.binary() == binary@,
            r.manifest_path() == manifest_path@,
            r.packages() == texts(packages@),
    {
        TwinSelfGate { runner, binary, manifest_path, packages }
    }

    /// The binary cargo is asked to build and run.
    pub closed spec fn binary(&self) -> Seq<char> {
        self.binary@
    }

    /// The manifest the tool is pointed at.
    pub closed spec fn manifest_path(&self) -> Seq<char> {
        self.manifest_path@
    }

    /// The packages the tool is asked about, in order.
    pub closed spec fn packages(&self) -> Seq<Seq<char>> {
        texts(self.packages@)
    }

    /// The arguments the check hands to `cargo`.
    pub fn args(&self) -> (r: Vec<String>)
        ensures
            texts(r@) == twin_self_args(self.binary(), self.manifest_path(), self.packages()),
    {
        let run = string_of(chars_of("run").as_slice());
        let quiet = string_of(chars_of("--quiet").as_slice());
        let bin_flag = string_of(chars_of("--bin").as_slice());
        let binary = self.binary.clone();
        let separator = string_of(chars_of("--").as_slice());
        let manifest_flag = string_of(chars_of("--manifest-path").as_slice());
        let manifest = self.manifest_path.clone();
        proof {
            reveal_strlit("run");
            reveal_strlit("--quiet");
            reveal_strlit("--bin");
            reveal_strlit("--");
            reveal_strlit("--manifest-path");
        }
        let mut args: Vec<String> = Vec::new();
        args.push(run);
        args.push(quiet);
        args.push(bin_flag);
        args.push(binary);
        args.push(separator);
        args.push(manifest_flag);
        args.push(manifest);
        assert(texts(args@) =~~= seq![
            seq!['r', 'u', 'n'],
            seq!['-', '-', 'q', 'u', 'i', 'e', 't'],
            seq!['-', '-', 'b', 'i', 'n'],
            self.binary(),
            seq!['-', '-'],
            seq!['-', '-', 'm', 'a', 'n', 'i', 'f', 'e', 's', 't', '-', 'p', 'a', 't', 'h'],
            self.manifest_path(),
        ]);
        push_package_flags(&mut args, &self.packages);
        args
    }

    /// The check's outcome for the exit code of the tool.
    pub fn verdict(code: Option<i32>) -> (r: Result<(), String>)
        ensures
            outcome_view(r) == twin_self_verdict(code),
    {
        match code {
            Some(0) => Ok(()),
            _ => {
                let m = string_of(chars_of("source files without a mirrored test").as_slice());
                proof {
                    reveal_strlit("source files without a mirrored test");
                    assert(m@ =~= twin_self_verdict(code)->Err_0);
                }
                Err(m)
            },
        }
    }
}

impl Gate for TwinSelfGate<'_> {
    fn label(&self) -> (r: String)
        ensures
            r@ == seq!['t', 'w', 'i', 'n', '4', 'r', 'u', 's', 't', ' ', 's', 'e', 'l', 'f', '-', 'a', 'n', 'a', 'l', 'y', 's', 'i', 's'],
    {
        let l = string_of(chars_of("twin4rust self-analysis").as_slice());
        proof {
            reveal_strlit("twin4rust self-analysis");
            assert(l@ =~= seq!['t', 'w', 'i', 'n', '4', 'r', 'u', 's', 't', ' ', 's', 'e', 'l', 'f', '-', 'a', 'n', 'a', 'l', 'y', 's', 'i', 's']);
        }
        l
    }

    /// Runs the tool with `args`, passes on a launch error, and otherwise
    /// decides by `verdict`. What the runner answers is not known, so no
    /// contract is stated here: `args` and `verdict` carry it.
    fn run(&self) -> (r: Result<(), String>) {
        let args = self.args();
        let code = match self.runner.run_streaming("cargo", args.as_slice()) {
            Ok(code) => code,
            Err(error) => return Err(error),
        };
        Self::verdict(code)
    }
}

} // verus!
