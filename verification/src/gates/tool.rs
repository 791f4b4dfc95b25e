//! What the checks that delegate to a cargo subcommand share: the flags naming
//! the packages, the hint given when the tool is missing, and how an exit
//! code is quoted.
use vstd::prelude::*;
use crate::text::{chars_of, push_str, push_signed_decimal, signed_decimal_spec, string_of, texts};


verus! {

/// `--package <name>` for each package, in order.
pub open spec fn package_flags(packages: Seq<Seq<char>>) -> Seq<Seq<char>>
    decreases packages.len(),
{
    if packages.len() == 0 {
        Seq::empty()
    } else {
        package_flags(packages.drop_last()) + seq![
            seq!['-', '-', 'p', 'a', 'c', 'k', 'a', 'g', 'e'],
            packages.last(),
        ]
    }
}

/// The error of a check whose tool is not installed.
pub open spec fn install_hint_spec(binary: Seq<char>) -> Seq<char> {
    binary + seq![
        ' ',
        'i',
        's',
        ' ',
        'n',
        'o',
        't',
        ' ',
        'i',
        'n',
        's',
        't',
        'a',
        'l',
        'l',
        'e',
        'd',
        ' ',
        '-',
        '-',
        ' ',
        'r',
        'u',
        'n',
        ':',
        ' ',
        'c',
        'a',
        'r',
        'g',
        'o',
        ' ',
        'i',
        'n',
        's',
        't',
        'a',
        'l',
        'l',
        ' ',
    ] + binary
}

/// An exit code as `Debug` writes an `Option<i32>`: `Some(<code>)`, or
/// `None` for a process killed by a signal.
pub open spec fn exit_code_text_spec(code: Option<i32>) -> Seq<char> {
    match code {
        Some(n) => seq!['S', 'o', 'm', 'e', '('] + signed_decimal_spec(n as int) + seq![')'],
        None => seq!['N', 'o', 'n', 'e'],
    }
}

/// A check's outcome with its error read as text.
pub open spec fn outcome_view(r: Result<(), String>) -> Result<(), Seq<char>> {
    match r {
        Ok(()) => Ok(()),
        Err(m) => Err(m@),
    }
}

/// Appends `--package <name>` to `args` for each package, in order.
pub fn push_package_flags(args: &mut Vec<String>, packages: &Vec<String>)
    ensures
        texts(final(args)@) == texts(old(args)@) + package_flags(texts(packages@)),
{
    let ghost start = texts(args@);
    let mut i: usize = 0;
    while i < packages.len()
        invariant
            i <= packages.len(),
            texts(args@) == start + package_flags(texts(packages@).take(i as int)),
        decreases packages.len() - i,
    {
        let ghost before = texts(args@);
        let ghost old_args = args@;
        let flag = string_of(chars_of("--package").as_slice());
        let name = packages[i].clone();
        proof {
            reveal_strlit("--package");
        }
        assert(flag@ =~= seq!['-', '-', 'p', 'a', 'c', 'k', 'a', 'g', 'e']);
        assert(name@ == packages@[i as int]@);
        args.push(flag);
        args.push(name);
        proof {
            assert(args@ =~= old_args.push(flag).push(name));
            let done = texts(packages@).take(i + 1);
            assert(done.drop_last() =~= texts(packages@).take(i as int));
            assert(done.last() == packages@[i as int]@);
            assert(texts(args@) =~= before + seq![
                seq!['-', '-', 'p', 'a', 'c', 'k', 'a', 'g', 'e'],
                packages@[i as int]@,
            ]);
        }
        i = i + 1;
    }
    assert(texts(packages@).take(packages.len() as int) =~= texts(packages@));
}

/// The error of a check whose tool `binary` is not installed: the tool and
/// the command that installs it.
pub fn install_hint(binary: &str) -> (r: String)
    ensures
        r@ == install_hint_spec(binary@),
{
    let mut out = chars_of(binary);
    push_str(&mut out, " is not installed -- run: cargo install ");
    push_str(&mut out, binary);
    proof {
        reveal_strlit(" is not installed -- run: cargo install ");
    }
    string_of(out.as_slice())
}

/// `code` as `Debug` writes it.
pub fn exit_code_text(code: Option<i32>) -> (r: String)
    ensures
        r@ == exit_code_text_spec(code),
{
    let mut out: Vec<char> = Vec::new();
    match code {
        Some(n) => {
            push_str(&mut out, "Some(");
            push_signed_decimal(&mut out, n);
            push_str(&mut out, ")");
            proof {
                reveal_strlit("Some(");
                reveal_strlit(")");
            }
        },
        None => {
            push_str(&mut out, "None");
            proof {
                reveal_strlit("None");
            }
        },
    }
    string_of(out.as_slice())
}

} // verus!
