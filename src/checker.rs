//! Checkers: the units of work that a task runs. A checker decides which command to run and
//! what the command's result means; running it is left to the caller.
use vstd::prelude::*;
use crate::checker::process::ProcessChecker;
use crate::checker::script::ScriptChecker;
use crate::executor::{CheckOutcome, CommandLine, Executor, OutcomeModel, RunModel, RunOutput};

pub mod process;
pub mod script;

verus! {

#[derive(Debug, Clone, PartialEq)]
pub enum Checker {
    ProcessChecker(ProcessChecker),
    ScriptChecker(ScriptChecker),
}

impl Executor for Checker {
    open spec fn command_spec(&self) -> (Seq<char>, Seq<Seq<char>>) {
        match self {
            Checker::ProcessChecker(c) => c.command_spec(),
            Checker::ScriptChecker(c) => c.command_spec(),
        }
    }

    open spec fn outcome_spec(&self, run: RunModel) -> OutcomeModel {
        match self {
            Checker::ProcessChecker(c) => c.outcome_spec(run),
            Checker::ScriptChecker(c) => c.outcome_spec(run),
        }
    }

    fn command(&self) -> (r: CommandLine) {
        match self {
            Checker::ProcessChecker(c) => c.command(),
            Checker::ScriptChecker(c) => c.command(),
        }
    }

    fn outcome(&self, run: &RunOutput) -> (r: CheckOutcome) {
        match self {
            Checker::ProcessChecker(c) => c.outcome(run),
            Checker::ScriptChecker(c) => c.outcome(run),
        }
    }
}

pub open spec fn describe_spec(c: Checker) -> Seq<char> {
    match c {
        Checker::ProcessChecker(p) => seq!['p', 'r', 'e', 'f', 'i', 'x', ':', ' '] + p.prefix@,
        Checker::ScriptChecker(s) => seq!['p', 'a', 't', 'h', ':', ' '] + s.path@,
    }
}

impl Checker {
    /// A one-line description for logs: `prefix: P` or `path: P`.
    pub fn describe(&self) -> (r: String)
        ensures
            r@ == describe_spec(*self),
    {
        let (mut head, tail) = match self {
            Checker::ProcessChecker(p) => (vec!['p', 'r', 'e', 'f', 'i', 'x', ':', ' '], p.prefix.as_str()),
            Checker::ScriptChecker(s) => (vec!['p', 'a', 't', 'h', ':', ' '], s.path.as_str()),
        };
        let ghost h = head@;
        let mut rest = crate::text::chars_of(tail);
        head.append(&mut rest);
        proof {
            match self {
                Checker::ProcessChecker(p) => {
                    assert(head@ =~= describe_spec(*self));
                },
                Checker::ScriptChecker(s) => {
                    assert(head@ =~= describe_spec(*self));
                },
            }
        }
        crate::text::string_of(&head)
    }
}

} // verus!
