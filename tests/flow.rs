use sertus::checker::process::ProcessChecker;
use sertus::checker::Checker;
use sertus::error::AppError;
use sertus::executor::CheckOutcome;
use sertus::flow::{Action, Flow, TaskStatus};
use sertus::metric_ext::MetricValue;
use sertus::task::Task;

fn pair(k: &str, v: &str) -> (String, String) {
    (k.to_string(), v.to_string())
}

fn two_task_flow() -> Flow {
    let mut flow = Flow::new("web");
    flow.add_task(Task::new("first", Checker::ProcessChecker(ProcessChecker::new("a"))));
    flow.add_task(Task::new("second", Checker::ProcessChecker(ProcessChecker::new("b"))));
    flow
}

#[test]
fn new_flow_defaults() {
    let flow = Flow::new("f");
    assert_eq!(flow.name, "f");
    assert_eq!(flow.interval, 3);
    assert!(flow.tasks.is_empty());
}

#[test]
fn empty_flow_sleeps_and_loops() {
    let flow = Flow::new("idle");
    for _ in 0..3 {
        assert_eq!(flow.action_at(0), Action::Sleep(3));
        assert_eq!(flow.on_wake(), 0);
    }
}

#[test]
fn tasks_run_in_declared_order_every_round() {
    let flow = two_task_flow();
    let mut pos = 0usize;
    let mut seen = vec![];
    for _ in 0..6 {
        match flow.action_at(pos) {
            Action::RunTask(i) => {
                seen.push(flow.tasks[i].name.clone());
                let outcome = Ok(CheckOutcome { success: true, output: String::new() });
                pos = flow.on_task_done(i, outcome).1;
            }
            Action::Sleep(s) => {
                assert_eq!(s, 3);
                seen.push("sleep".to_string());
                pos = flow.on_wake();
            }
        }
    }
    assert_eq!(seen, vec!["first", "second", "sleep", "first", "second", "sleep"]);
}

#[test]
fn execution_error_does_not_stop_round() {
    let flow = two_task_flow();
    let (report, next) = flow.on_task_done(0, Err(AppError::Io("not found".to_string())));
    assert_eq!(report.status, TaskStatus::Errored);
    assert_eq!(report.status.gauge_value(), -1);
    assert_eq!(report.labels, vec![pair("flow", "web"), pair("task", "first")]);
    assert!(report.metrics.is_empty());
    assert_eq!(next, 1);
    assert_eq!(flow.action_at(next), Action::RunTask(1));
}

#[test]
fn report_merges_extracted_labels_and_metrics() {
    let flow = two_task_flow();
    let output = "#label {region=eu}\n#metric depth gauge {q=jobs} 4.5\n".to_string();
    let (report, next) = flow.on_task_done(1, Ok(CheckOutcome { success: false, output }));
    assert_eq!(next, 2);
    assert_eq!(report.status, TaskStatus::Failed);
    assert_eq!(report.status.gauge_value(), 0);
    assert_eq!(
        report.labels,
        vec![pair("flow", "web"), pair("task", "second"), pair("region", "eu")]
    );
    assert_eq!(report.metrics.len(), 1);
    assert_eq!(report.metrics[0].value, MetricValue::F64Text("4.5".to_string()));
    assert_eq!(flow.action_at(next), Action::Sleep(3));
}

#[test]
fn success_status_gauge_is_one() {
    let flow = two_task_flow();
    let ok = CheckOutcome { success: true, output: "fine".to_string() };
    let (report, _) = flow.on_task_done(0, Ok(ok));
    assert_eq!(report.status, TaskStatus::Succeeded);
    assert_eq!(report.status.gauge_value(), 1);
}

#[test]
fn report_lists_unknown_metric_kinds() {
    let flow = two_task_flow();
    let output = "#metric h histogram {a=1} 3\n#metric c counter {a=1} 3".to_string();
    let (report, _) = flow.on_task_done(0, Ok(CheckOutcome { success: true, output }));
    assert_eq!(report.unknown_kinds, vec!["histogram".to_string()]);
    assert_eq!(report.metrics.len(), 1);
    let (errored, _) = flow.on_task_done(0, Err(AppError::Io("x".to_string())));
    assert!(errored.unknown_kinds.is_empty());
}
