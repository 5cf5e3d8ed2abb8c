use sertus::checker::process::ProcessChecker;
use sertus::checker::script::ScriptChecker;
use sertus::checker::Checker;
use sertus::executor::{Executor, RunOutput};

fn run(success: bool, stdout: &str, stderr: &str) -> RunOutput {
    RunOutput { success, stdout: stdout.to_string(), stderr: stderr.to_string() }
}

#[test]
fn empty_prefix_matches_any_process() {
    let checker = ProcessChecker::new("");
    let out = checker.outcome(&run(true, "COMMAND\n/sbin/init\nbash -l\n", ""));
    assert!(out.success);
    assert_eq!(out.output, "/sbin/init\nbash -l");
}

#[test]
fn prefix_selects_processes() {
    let checker = ProcessChecker::new("nginx");
    let listing = "  COMMAND\nnginx: master\n/usr/bin/sshd\nnginx: worker\n\n";
    let out = checker.outcome(&run(true, listing, ""));
    assert!(out.success);
    assert_eq!(out.output, "nginx: master\nnginx: worker");
    let missing = ProcessChecker::new("redis").outcome(&run(true, listing, ""));
    assert!(!missing.success);
    assert_eq!(missing.output, "");
}

#[test]
fn listing_error_fails_the_process_check() {
    let out = ProcessChecker::new("").outcome(&run(true, "COMMAND\ninit\n", "ps: boom"));
    assert!(!out.success);
    assert_eq!(out.output, "ps: boom");
}

#[test]
fn process_check_runs_ps() {
    let cmd = Checker::ProcessChecker(ProcessChecker::new("x")).command();
    assert_eq!(cmd.program, "ps");
    assert_eq!(cmd.args, vec!["-eo".to_string(), "command".to_string()]);
}

#[test]
fn script_success_keeps_stdout() {
    let checker = ScriptChecker::new("/opt/probe/health.sh");
    let out = checker.outcome(&run(true, "Hello, world!\n", ""));
    assert!(out.success);
    assert!(out.output.contains("Hello, world!"));
}

#[test]
fn script_exit_status_decides() {
    let out = ScriptChecker::new("/opt/probe/health.sh").outcome(&run(false, "bad\n", ""));
    assert!(!out.success);
    assert_eq!(out.output, "bad\n");
}

#[test]
fn script_stderr_fails_the_check() {
    let out = ScriptChecker::new("/opt/probe/health.sh").outcome(&run(true, "fine\n", "warning\n"));
    assert!(!out.success);
    assert_eq!(out.output, "warning\n");
}

#[test]
fn script_command_uses_interpreter() {
    let checker = ScriptChecker::new("/opt/probe/health.sh");
    assert_eq!(checker.bin, Some("bash".to_string()));
    let cmd = Checker::ScriptChecker(checker.clone()).command();
    assert_eq!(cmd.program, "bash");
    assert_eq!(cmd.args, vec!["/opt/probe/health.sh".to_string()]);
    let custom = ScriptChecker { path: "a.py".to_string(), bin: Some("python3".to_string()) };
    assert_eq!(custom.command().program, "python3");
    let bare = ScriptChecker { path: "a.sh".to_string(), bin: None };
    assert_eq!(bare.command().program, "bash");
}

#[test]
fn checker_descriptions() {
    assert_eq!(Checker::ProcessChecker(ProcessChecker::new("nginx")).describe(), "prefix: nginx");
    assert_eq!(Checker::ScriptChecker(ScriptChecker::new("/x.sh")).describe(), "path: /x.sh");
}
