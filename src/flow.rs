//! A flow: an endless loop over an ordered list of tasks, with a pause between rounds.
//!
//! The loop itself is driven from outside. `action_at` says what to do at a position of the
//! round (run task `i`, or sleep), `on_task_done` turns the result of running a task into the
//! report to emit and the next position, and `on_wake` starts the next round.
use vstd::prelude::*;
use crate::error::AppError;
use crate::executor::CheckOutcome;
use crate::metric_ext::{
    extract_labels, extract_metrics, labels_view, metrics_view, text_labels, text_metrics,
    text_unknown_kinds, unknown_metric_kinds, MetricModel, MetricStruct,
};
use crate::task::Task;
use crate::text::string_of;

verus! {

/// The pause between rounds, in seconds, of a new flow.
pub const DEFAULT_INTERVAL: u64 = 3;

#[derive(Debug, Clone)]
pub struct Flow {
    pub name: String,
    /// Seconds to sleep after each round.
    pub interval: u64,
    pub tasks: Vec<Task>,
}

/// What the loop does next.
#[derive(Debug, Clone, Copy, PartialEq, Eq, Structural)]
pub enum Action {
    /// Run the task at this position.
    RunTask(usize),
    /// Sleep this many seconds.
    Sleep(u64),
}

/// How a task ended: its check passed, failed, or could not be run.
#[derive(Debug, Clone, Copy, PartialEq, Eq, Structural)]
pub enum TaskStatus {
    Succeeded,
    Failed,
    Errored,
}

impl TaskStatus {
    pub open spec fn gauge_spec(self) -> int {
        match self {
            TaskStatus::Succeeded => 1,
            TaskStatus::Failed => 0,
            TaskStatus::Errored => -1,
        }
    }

    /// The value of the status gauge: 1 for success, 0 for failure, -1 for an error.
    pub fn gauge_value(&self) -> (r: i8)
        ensures
            r as int == self.gauge_spec(),
    {
        match self {
            TaskStatus::Succeeded => 1,
            TaskStatus::Failed => 0,
            TaskStatus::Errored => -1,
        }
    }
}

/// What a task's run hands to the metrics sink: the labels of its status gauge, the status,
/// the metric records that its output declared, and the kinds of the metric lines that were
/// dropped for naming neither a gauge nor a counter (to be warned about).
#[derive(Debug, Clone, PartialEq)]
pub struct TaskReport {
    pub labels: Vec<(String, String)>,
    pub status: TaskStatus,
    pub metrics: Vec<MetricStruct>,
    pub unknown_kinds: Vec<String>,
}

pub struct ReportModel {
    pub labels: Seq<(Seq<char>, Seq<char>)>,
    pub status: TaskStatus,
    pub metrics: Seq<MetricModel>,
    pub unknown_kinds: Seq<Seq<char>>,
}

impl TaskReport {
    pub open spec fn view(&self) -> ReportModel {
        ReportModel {
            labels: labels_view(self.labels@),
            status: self.status,
            metrics: metrics_view(self.metrics@),
            unknown_kinds: self.unknown_kinds@.map_values(|k: String| k@),
        }
    }
}

pub open spec fn flow_key() -> Seq<char> {
    seq!['f', 'l', 'o', 'w']
}

pub open spec fn task_key() -> Seq<char> {
    seq!['t', 'a', 's', 'k']
}

/// The labels that every report of a task carries: the flow's name, then the task's.
pub open spec fn base_labels(flow: Seq<char>, task: Seq<char>) -> Seq<(Seq<char>, Seq<char>)> {
    seq![(flow_key(), flow), (task_key(), task)]
}

/// The report of one run of a task. A check that ran adds the labels and metric records that
/// its output declares, whether it passed or failed; one that could not be run reports only
/// the error status.
pub open spec fn report_spec(
    flow: Seq<char>,
    task: Seq<char>,
    outcome: Result<CheckOutcome, AppError>,
) -> ReportModel {
    match outcome {
        Ok(o) => ReportModel {
            labels: base_labels(flow, task) + text_labels(o.output@),
            status: if o.success {
                TaskStatus::Succeeded
            } else {
                TaskStatus::Failed
            },
            metrics: text_metrics(o.output@),
            unknown_kinds: text_unknown_kinds(o.output@),
        },
        Err(_) => ReportModel {
            labels: base_labels(flow, task),
            status: TaskStatus::Errored,
            metrics: Seq::empty(),
            unknown_kinds: Seq::empty(),
        },
    }
}

impl Flow {
    pub open spec fn action_spec(&self, pos: nat) -> Action {
        if pos < self.tasks@.len() {
            Action::RunTask(pos as usize)
        } else {
            Action::Sleep(self.interval)
        }
    }

    /// The position that follows `pos`: the next task, or after the sleep the first one.
    pub open spec fn next_spec(&self, pos: nat) -> nat {
        if pos < self.tasks@.len() {
            pos + 1
        } else {
            0
        }
    }

    /// What finishing the task at `pos` with `outcome` yields: its report and the next position.
    pub open spec fn step_spec(
        &self,
        pos: nat,
        outcome: Result<CheckOutcome, AppError>,
    ) -> (ReportModel, nat) {
        (report_spec(self.name@, self.tasks@[pos as int].name@, outcome), self.next_spec(pos))
    }

    /// The position reached after `k` steps from the start of the first round.
    pub open spec fn position_after(&self, k: nat) -> nat
        decreases k,
    {
        if k == 0 {
            0
        } else {
            self.next_spec(self.position_after((k - 1) as nat))
        }
    }

    pub fn new(name: &str) -> (r: Self)
        ensures
            r.name@ == name@,
            r.interval == DEFAULT_INTERVAL,
            r.tasks@.len() == 0,
    {
        Flow { name: name.to_owned(), interval: DEFAULT_INTERVAL, tasks: Vec::new() }
    }

    /// Appends a task; it runs after those already there.
    pub fn add_task(&mut self, task: Task)
        ensures
            final(self).tasks@ == old(self).tasks@.push(task),
            final(self).name == old(self).name,
            final(self).interval == old(self).interval,
    {
        self.tasks.push(task);
    }

    pub fn action_at(&self, pos: usize) -> (r: Action)
        requires
            pos <= self.tasks@.len(),
        ensures
            r == self.action_spec(pos as nat),
    {
        if pos < self.tasks.len() {
            Action::RunTask(pos)
        } else {
            Action::Sleep(self.interval)
        }
    }

    /// Finishes the task at `pos`. Whatever the outcome, an execution error included, the
    /// round goes on with the next position.
    pub fn on_task_done(&self, pos: usize, outcome: Result<CheckOutcome, AppError>) -> (r: (
        TaskReport,
        usize,
    ))
        requires
            pos < self.tasks@.len(),
        ensures
            (r.0.view(), r.1 as nat) == self.step_spec(pos as nat, outcome),
    {
        let n = self.tasks.len();
        let mut labels: Vec<(String, String)> = Vec::new();
        labels.push((string_of(&vec!['f', 'l', 'o', 'w']), self.name.clone()));
        labels.push((string_of(&vec!['t', 'a', 's', 'k']), self.tasks[pos].name.clone()));
        let ghost base = labels@;
        assert(labels_view(base) =~= base_labels(self.name@, self.tasks@[pos as int].name@));
        let report = match &outcome {
            Ok(o) => {
                let mut extracted = extract_labels(o.output.as_str());
                let ghost added = extracted@;
                labels.append(&mut extracted);
                assert(labels_view(labels@) =~= labels_view(base) + labels_view(added));
                let metrics = extract_metrics(o.output.as_str());
                let unknown_kinds = unknown_metric_kinds(o.output.as_str());
                let status = if o.success {
                    TaskStatus::Succeeded
                } else {
                    TaskStatus::Failed
                };
                TaskReport { labels, status, metrics, unknown_kinds }
            },
            Err(_) => {
                let metrics: Vec<MetricStruct> = Vec::new();
                let unknown_kinds: Vec<String> = Vec::new();
                assert(metrics_view(metrics@) =~= Seq::<MetricModel>::empty());
                assert(unknown_kinds@.map_values(|k: String| k@) =~= Seq::<Seq<char>>::empty());
                TaskReport { labels, status: TaskStatus::Errored, metrics, unknown_kinds }
            },
        };
        (report, pos + 1)
    }

    /// Ends the sleep: the next round starts with the first task.
    pub fn on_wake(&self) -> (r: usize)
        ensures
            r as nat == self.next_spec(self.tasks@.len()),
    {
        0
    }
}

/// A flow without tasks does nothing but sleep: its only action is the pause, and after it the
/// loop is back where it started.
pub proof fn lemma_empty_flow_only_sleeps(flow: Flow, k: nat)
    requires
        flow.tasks@.len() == 0,
    ensures
        flow.position_after(k) == 0,
        flow.action_spec(flow.position_after(k)) == Action::Sleep(flow.interval),
    decreases k,
{
    if k > 0 {
        lemma_empty_flow_only_sleeps(flow, (k - 1) as nat);
    }
}

proof fn lemma_first_round(flow: Flow, j: nat)
    requires
        j <= flow.tasks@.len(),
    ensures
        flow.position_after(j) == j,
    decreases j,
{
    if j > 0 {
        lemma_first_round(flow, (j - 1) as nat);
    }
}

proof fn lemma_period(flow: Flow, k: nat)
    ensures
        flow.position_after(k + flow.tasks@.len() + 1) == flow.position_after(k),
    decreases k,
{
    let n = flow.tasks@.len();
    if k == 0 {
        lemma_first_round(flow, n);
        assert(flow.position_after(n + 1) == flow.next_spec(flow.position_after(n)));
    } else {
        lemma_period(flow, (k - 1) as nat);
        assert(flow.position_after(k + n + 1) == flow.next_spec(
            flow.position_after((k - 1 + n + 1) as nat),
        ));
    }
}

/// Every round runs the tasks one after another in the order they were added, then sleeps,
/// and the next round repeats the same sequence.
pub proof fn lemma_rounds_run_tasks_in_order(flow: Flow, j: nat, k: nat)
    requires
        j <= flow.tasks@.len(),
    ensures
        flow.position_after(j) == j,
        j < flow.tasks@.len() ==> flow.action_spec(flow.position_after(j)) == Action::RunTask(
            j as usize,
        ),
        flow.action_spec(flow.position_after(flow.tasks@.len())) == Action::Sleep(flow.interval),
        flow.position_after(k + flow.tasks@.len() + 1) == flow.position_after(k),
{
    lemma_first_round(flow, j);
    lemma_first_round(flow, flow.tasks@.len());
    lemma_period(flow, k);
}

/// A task that could not be run at all is reported with the error status and only the flow and
/// task labels, and the round goes on with the next task.
pub proof fn lemma_error_does_not_stop_round(flow: Flow, pos: nat, e: AppError)
    requires
        pos < flow.tasks@.len(),
    ensures
        flow.step_spec(pos, Err(e)).0.status == TaskStatus::Errored,
        flow.step_spec(pos, Err(e)).0.labels == base_labels(
            flow.name@,
            flow.tasks@[pos as int].name@,
        ),
        flow.step_spec(pos, Err(e)).1 == pos + 1,
        pos + 1 < flow.tasks@.len() ==> flow.action_spec(flow.step_spec(pos, Err(e)).1)
            == Action::RunTask((pos + 1) as usize),
{
}

} // verus!
