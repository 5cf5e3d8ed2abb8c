//! A check that runs a script with an interpreter.
use vstd::prelude::*;
use crate::executor::{CheckOutcome, CommandLine, Executor, OutcomeModel, RunModel, RunOutput};
use crate::text::{chars_of, string_of};

verus! {

/// Runs `bin path`; `bin` defaults to `bash`.
#[derive(Debug, Clone, PartialEq)]
pub struct ScriptChecker {
    pub path: String,
    pub bin: Option<String>,
}

pub open spec fn default_interpreter() -> Seq<char> {
    seq!['b', 'a', 's', 'h']
}

/// The interpreter that runs the script.
pub open spec fn interpreter(bin: Option<String>) -> Seq<char> {
    match bin {
        Some(b) => b@,
        None => default_interpreter(),
    }
}

/// The script's own exit status decides, except that any error output makes the check fail
/// with that text as its output; otherwise the output is the standard output.
pub open spec fn script_outcome(run: RunModel) -> OutcomeModel {
    if run.stderr.len() > 0 {
        OutcomeModel { success: false, output: run.stderr }
    } else {
        OutcomeModel { success: run.success, output: run.stdout }
    }
}

fn bash() -> (r: String)
    ensures
        r@ == default_interpreter(),
{
    let cs: Vec<char> = vec!['b', 'a', 's', 'h'];
    assert(cs@ =~= default_interpreter());
    string_of(&cs)
}

impl ScriptChecker {
    pub fn new(path: &str) -> (r: Self)
        ensures
            r.path@ == path@,
            r.bin matches Some(b) && b@ == default_interpreter(),
    {
        ScriptChecker { path: path.to_owned(), bin: Some(bash()) }
    }
}

impl Executor for ScriptChecker {
    open spec fn command_spec(&self) -> (Seq<char>, Seq<Seq<char>>) {
        (interpreter(self.bin), seq![self.path@])
    }

    open spec fn outcome_spec(&self, run: RunModel) -> OutcomeModel {
        script_outcome(run)
    }

    fn command(&self) -> (r: CommandLine) {
        let program = match &self.bin {
            Some(b) => b.clone(),
            None => bash(),
        };
        let args: Vec<String> = vec![self.path.clone()];
        let r = CommandLine { program, args };
        assert(r.view().1 =~= seq![self.path@]);
        r
    }

    fn outcome(&self, run: &RunOutput) -> (r: CheckOutcome) {
        let err = chars_of(run.stderr.as_str());
        if err.len() > 0 {
            CheckOutcome { success: false, output: run.stderr.clone() }
        } else {
            CheckOutcome { success: run.success, output: run.stdout.clone() }
        }
    }
}

} // verus!
