//! The command line.
use vstd::prelude::*;

verus! {

/// The options of the command line: `--manifest-path` and any number of
/// `--package`.
#[derive(Debug)]
pub struct Args {
    pub manifest_path: Option<String>,
    pub packages: Vec<String>,
}

pub open spec fn subcommand_name() -> Seq<char> {
    seq!['t', 'w', 'i', 'n', '4', 'r', 'u', 's', 't']
}

/// The argument vector with the subcommand name that cargo inserts at
/// position 1 removed; unchanged when position 1 holds anything else.
pub open spec fn forwarded_args(args: Seq<Seq<char>>) -> Seq<Seq<char>> {
    if args.len() >= 2 && args[1] == subcommand_name() {
        args.remove(1)
    } else {
        args
    }
}

/// Run directly, the binary gets its arguments untouched.
pub proof fn direct_invocation_is_untouched(args: Seq<Seq<char>>)
    requires
        args.len() < 2 || args[1] != subcommand_name(),
    ensures
        forwarded_args(args) == args,
{
}

/// Run through cargo, the binary loses the subcommand name cargo put after
/// it, and every other argument stays, in order.
pub proof fn cargo_invocation_drops_the_subcommand_name(binary: Seq<char>, rest: Seq<Seq<char>>)
    ensures
        forwarded_args(seq![binary, subcommand_name()] + rest) == seq![binary] + rest,
{
    let args = seq![binary, subcommand_name()] + rest;
    assert(args[1] == subcommand_name());
    assert(args.remove(1) =~= seq![binary] + rest);
}

impl Args {
    /// Cargo invokes `cargo twin4rust` as `cargo-twin4rust twin4rust ...`, so
    /// the subcommand name arrives as an extra argument at position 1. Running
    /// the binary directly does not repeat it.
    pub fn without_cargo_subcommand(args: Vec<String>) -> (r: Vec<String>)
        ensures
            r@.map_values(|s: String| s@) == forwarded_args(args@.map_values(|s: String| s@)),
    {
        let ghost views = args@.map_values(|s: String| s@);
        if args.len() < 2 || !crate::text::string_is(&args[1], "twin4rust") {
            proof {
                reveal_strlit("twin4rust");
                assert("twin4rust"@ =~= subcommand_name());
            }
            return args;
        }
        proof {
            reveal_strlit("twin4rust");
            assert("twin4rust"@ =~= subcommand_name());
        }
        let mut forwarded = args;
        forwarded.remove(1);
        proof {
            assert(forwarded@.map_values(|s: String| s@) =~= views.remove(1));
        }
        forwarded
    }
}

} // verus!
