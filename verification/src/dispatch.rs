//! The dispatcher's decisions: when to refresh the worker's ping row,
//! how long to pause between queue polls, what a handled job's
//! outcome obliges the worker to record, and how a failure while
//! recording it escalates to the enclosing flow.

use crate::model::JobError;
use crate::model::JobKind;
use vstd::prelude::*;
use vstd::string::StringExecFns;

verus! {

/// How often the worker refreshes its own ping row, in seconds.
pub const WORKER_PING_PERIOD_SECS: u64 = 15;

/// Whether the worker's ping row is due for a refresh.
pub fn should_ping_worker(elapsed_secs: u64) -> (r: bool)
    ensures
        r == (elapsed_secs > WORKER_PING_PERIOD_SECS),
{
    elapsed_secs > WORKER_PING_PERIOD_SECS
}

/// How long to pause between queue polls: the configured pause,
/// staggered by the worker count so that many workers do not all hit
/// the queue at once.
pub fn poll_pause_ms(sleep_queue: u64, num_workers: u64) -> (r: u64)
    requires
        sleep_queue * num_workers <= u64::MAX,
    ensures
        r == sleep_queue * num_workers,
{
    sleep_queue * num_workers
}

/// Whether a kind of job is handed whole to the flow interpreter
/// rather than run by the worker itself.
pub open spec fn is_flow_kind(k: JobKind) -> bool {
    k is Flow || k is FlowPreview
}

/// Decides whether this kind of job is the flow interpreter's.
pub fn flow_kind(k: JobKind) -> (r: bool)
    ensures
        r == is_flow_kind(k),
{
    match k {
        JobKind::Flow | JobKind::FlowPreview => true,
        _ => false,
    }
}

/// The one completion record a handled job obliges: a completed-job
/// row with its result, or a completed-job-error row with its error.
#[derive(Clone, PartialEq, Eq, Debug)]
pub enum CompletionCall {
    AddCompleted { result: String },
    AddCompletedError { error: JobError },
}

/// What the worker does once a job is handled.  Exactly one of the
/// two holds: a flow kind is delegated whole to the flow interpreter
/// (which completes it), or the worker itself records exactly one
/// completion — a completed-job row on success, a completed-job-error
/// row on failure, never both, never neither.  A flow step moreover
/// has its parent's flow status advanced, with the same success flag.
#[derive(Clone, PartialEq, Eq, Debug)]
pub struct DispatchPlan {
    pub delegate_to_flow: bool,
    pub completion: Option<CompletionCall>,
    pub update_flow_status: Option<bool>,
}

/// Plans the completion of one handled job.
pub fn dispatch_plan(kind: JobKind, is_flow_step: bool, execution: Result<String, JobError>)
    -> (r: DispatchPlan)
    ensures
        r.delegate_to_flow == is_flow_kind(kind),
        is_flow_kind(kind) ==> r.completion is None && r.update_flow_status is None,
        !is_flow_kind(kind) ==> r.completion is Some,
        !is_flow_kind(kind) && execution is Ok ==> r.completion
            == Option::Some(CompletionCall::AddCompleted { result: execution->Ok_0 }),
        !is_flow_kind(kind) && execution is Err ==> r.completion
            == Option::Some(CompletionCall::AddCompletedError { error: execution->Err_0 }),
        !is_flow_kind(kind) ==> r.update_flow_status == if is_flow_step {
            Option::Some(execution is Ok)
        } else {
            Option::<bool>::None
        },
{
    if flow_kind(kind) {
        DispatchPlan { delegate_to_flow: true, completion: Option::None, update_flow_status: Option::None }
    } else {
        let success = execution.is_ok();
        let completion = match execution {
            Result::Ok(result) => CompletionCall::AddCompleted { result },
            Result::Err(error) => CompletionCall::AddCompletedError { error },
        };
        DispatchPlan {
            delegate_to_flow: false,
            completion: Option::Some(completion),
            update_flow_status: if is_flow_step {
                Option::Some(success)
            } else {
                Option::None
            },
        }
    }
}

/// The prefix of the error recorded when handling a job itself
/// failed unexpectedly.
pub fn unexpected_job_error_prefix() -> (r: &'static str)
    ensures
        r@ == "Unexpected error during job execution:\n"@,
{
    "Unexpected error during job execution:\n"
}

/// The message recorded on the parent job when advancing the flow
/// after a failure itself failed.
pub fn flow_escalation_message(err: &JobError) -> (r: String)
    ensures
        r@ == "Unexpected error during flow job error handling:\n"@ + err.message_spec(),
{
    let mut out = String::from_str("Unexpected error during flow job error handling:\n");
    out.append(err.message().as_str());
    proof {
        assert(out@ =~= "Unexpected error during flow job error handling:\n"@
            + err.message_spec());
    }
    out
}

/// Whether a failure while recording a job's error escalates to the
/// parent job: only a flow step has a parent, and only a failed flow
/// update leaves the flow stuck.
pub fn escalate_to_parent(parent_job: &Option<String>, flow_update_failed: bool) -> (r: bool)
    ensures
        r == (parent_job is Some && flow_update_failed),
{
    parent_job.is_some() && flow_update_failed
}

/// A flow step must name its parent; one without is malformed.
pub fn require_parent(parent_job: &Option<String>) -> (r: Result<&String, JobError>)
    ensures
        match r {
            Result::Ok(p) => *parent_job == Option::Some(*p),
            Result::Err(e) => parent_job is None && e is InternalErr && e->InternalErr_0@
                == "expected parent job"@,
        },
{
    match parent_job {
        Option::Some(p) => Result::Ok(p),
        Option::None => Result::Err(JobError::InternalErr(String::from_str("expected parent job"))),
    }
}

} // verus!
