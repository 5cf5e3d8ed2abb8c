//! What a checker asks to have run, what running it gave, and the trait that ties the two.
use vstd::prelude::*;

verus! {

/// A program and its arguments.
#[derive(Debug, Clone, PartialEq)]
pub struct CommandLine {
    pub program: String,
    pub args: Vec<String>,
}

impl CommandLine {
    pub open spec fn view(&self) -> (Seq<char>, Seq<Seq<char>>) {
        (self.program@, self.args@.map_values(|a: String| a@))
    }
}

/// What running a command gave: whether it exited successfully, and its two output streams
/// decoded as text.
#[derive(Debug, Clone, PartialEq)]
pub struct RunOutput {
    pub success: bool,
    pub stdout: String,
    pub stderr: String,
}

pub struct RunModel {
    pub success: bool,
    pub stdout: Seq<char>,
    pub stderr: Seq<char>,
}

impl RunOutput {
    pub open spec fn view(&self) -> RunModel {
        RunModel { success: self.success, stdout: self.stdout@, stderr: self.stderr@ }
    }
}

/// The result of one check: pass or fail, and the text that goes with it.
#[derive(Debug, Clone, PartialEq)]
pub struct CheckOutcome {
    pub success: bool,
    pub output: String,
}

pub struct OutcomeModel {
    pub success: bool,
    pub output: Seq<char>,
}

impl CheckOutcome {
    pub open spec fn view(&self) -> OutcomeModel {
        OutcomeModel { success: self.success, output: self.output@ }
    }
}

/// A check: the command that it runs, and how the command's result is judged.
pub trait Executor {
    spec fn command_spec(&self) -> (Seq<char>, Seq<Seq<char>>);

    spec fn outcome_spec(&self, run: RunModel) -> OutcomeModel;

    fn command(&self) -> (r: CommandLine)
        ensures
            r.view() == self.command_spec(),
    ;

    fn outcome(&self, run: &RunOutput) -> (r: CheckOutcome)
        ensures
            r.view() == self.outcome_spec(run.view()),
    ;
}

} // verus!
