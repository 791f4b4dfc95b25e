//! The second stage of the workspace checks: its checks run in order, and the
//! first that fails ends the stage.
use vstd::prelude::*;
use crate::console::emit_line;
use crate::gates::gate::Gate;
use crate::text::{chars_of, push_str, string_of};

verus! {

/// How a check is announced before it runs: its label and `...`.
pub open spec fn announcement(label: Seq<char>) -> Seq<char> {
    label + seq!['.', '.', '.']
}

/// How the stage reports a check that failed: its label, then the reason in
/// parentheses.
pub open spec fn failure_message(label: Seq<char>, reason: Seq<char>) -> Seq<char> {
    label + seq![' ', '('] + reason + seq![')']
}

pub struct Stage2<'a> {
    gates: Vec<&'a dyn Gate>,
}

impl<'a> Stage2<'a> {
    pub fn new(gates: Vec<&'a dyn Gate>) -> (r: Self)
        ensures
            r.gates() == gates@,
    {
        Stage2 { gates }
    }

    /// The checks, in the order they run.
    pub closed spec fn gates(&self) -> Seq<&'a dyn Gate> {
        self.gates@
    }

    /// Runs the checks in order, announcing each, and stops at the first that
    /// fails: the layout checks come first, and a layout about to be rejected
    /// is not worth measuring. Each check's label is asked once, so the
    /// failure names the check that ran. What a check answers is its own
    /// affair; the contract speaks of what `run_at` and `label_at` can answer
    /// for each: the stage passes only when every check could pass, and
    /// fails naming a check that could fail, each one before it having
    /// passed.
    pub fn run(&self) -> (r: Result<(), String>)
        ensures
            self.gates().len() == 0 ==> r is Ok,
            r matches Err(m) ==> exists|label: Seq<char>, reason: Seq<char>|
                m@ == failure_message(label, reason),
            r is Ok ==> forall|i: usize| i < self.gates().len() ==> #[trigger] could_pass(self, i),
            r matches Err(m) ==> exists|k: usize, label: String, reason: String|
                k < self.gates().len() && call_ensures(label_at, (self, k), label) && call_ensures(
                    run_at,
                    (self, k),
                    Err::<(), String>(reason),
                ) && m@ == failure_message(label@, reason@) && forall|j: usize|
                    j < k ==> #[trigger] could_pass(self, j),
    {
        let mut i: usize = 0;
        while i < self.gates.len()
            invariant
                i <= self.gates.len(),
                forall|j: usize| j < i ==> #[trigger] could_pass(self, j),
            decreases self.gates.len() - i,
        {
            let ask = label_at;
            assert(call_requires(label_at, (self, i)));
            let label = ask(self, i);
            emit_line(Self::announce(&label).as_str());
            let check = run_at;
            assert(call_requires(run_at, (self, i)));
            let outcome = check(self, i);
            assert(call_ensures(run_at, (self, i), outcome));
            match outcome {
                Ok(()) => {
                    assert(outcome is Ok);
                },
                Err(reason) => {
                    return Err(Self::failure(&label, &reason));
                },
            }
            i = i + 1;
        }
        Ok(())
    }

    /// The line announcing the check labelled `label`.
    pub fn announce(label: &String) -> (r: String)
        ensures
            r@ == announcement(label@),
    {
        let mut out = chars_of(label.as_str());
        push_str(&mut out, "...");
        proof {
            reveal_strlit("...");
        }
        string_of(out.as_slice())
    }

    /// The stage's error for the check labelled `label` failing for `reason`.
    pub fn failure(label: &String, reason: &String) -> (r: String)
        ensures
            r@ == failure_message(label@, reason@),
    {
        let mut out = chars_of(label.as_str());
        push_str(&mut out, " (");
        push_str(&mut out, reason.as_str());
        push_str(&mut out, ")");
        proof {
            reveal_strlit(" (");
            reveal_strlit(")");
        }
        string_of(out.as_slice())
    }
}


/// Runs the `i`-th check of `stage`: what its own `run` answers.
pub fn run_at(stage: &Stage2, i: usize) -> Result<(), String>
    requires
        i < stage.gates().len(),
{
    stage.gates[i].run()
}

/// The label of the `i`-th check of `stage`: what its own `label` answers.
pub fn label_at(stage: &Stage2, i: usize) -> String
    requires
        i < stage.gates().len(),
{
    stage.gates[i].label()
}

/// Whether running the `i`-th check of `stage` can pass.
pub open spec fn could_pass(stage: &Stage2, i: usize) -> bool {
    exists|outcome: Result<(), String>|
        #[trigger] call_ensures(run_at, (stage, i), outcome) && outcome is Ok
}

} // verus!
