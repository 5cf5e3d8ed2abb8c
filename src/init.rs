//! The configuration written for a new installation.
use vstd::prelude::*;
use crate::checker::Checker;
use crate::checker::process::ProcessChecker;
use crate::checker::script::{default_interpreter, ScriptChecker};
use crate::config::Config;
use crate::flow::{Flow, DEFAULT_INTERVAL};
use crate::metrics::default_server_addr;
use crate::task::Task;

verus! {

/// One flow, `flow 1`, with a process check and then a script check.
pub fn default() -> (r: Config)
    ensures
        r.flows@.len() == 1,
        r.metrics matches crate::metrics::Metrics::Server(s) && s.addr@ == default_server_addr()
            && s.bucket is None,
        r.flows@[0].name@ == "flow 1"@,
        r.flows@[0].interval == DEFAULT_INTERVAL,
        r.flows@[0].tasks@.len() == 2,
        r.flows@[0].tasks@[0].name@ == "check process"@,
        r.flows@[0].tasks@[0].checker matches Checker::ProcessChecker(p) && p.prefix@
            == "process prefix"@,
        r.flows@[0].tasks@[1].name@ == "check script"@,
        r.flows@[0].tasks@[1].checker matches Checker::ScriptChecker(s) && s.path@
            == "~/.sertus/scripts/script.sh"@ && (s.bin matches Some(b) && b@
            == default_interpreter()),
{
    let mut config = Config::default();
    let mut flow = Flow::new("flow 1");
    flow.add_task(
        Task::new("check process", Checker::ProcessChecker(ProcessChecker::new("process prefix"))),
    );
    flow.add_task(
        Task::new(
            "check script",
            Checker::ScriptChecker(ScriptChecker::new("~/.sertus/scripts/script.sh")),
        ),
    );
    config.add_flow(flow);
    config
}

} // verus!
