use vstd::prelude::*;
use crate::checker::Checker;

verus! {

/// A named checker: the unit that a flow runs.
#[derive(Debug, Clone, PartialEq)]
pub struct Task {
    pub name: String,
    pub checker: Checker,
}

impl Task {
    pub fn new(name: &str, checker: Checker) -> (r: Self)
        ensures
            r.name@ == name@,
            r.checker == checker,
    {
        Task { name: name.to_owned(), checker }
    }
}

} // verus!
