//! The decisions of the task service: its configuration from settings, what
//! the listener and the workers do on each event, and the response owed when
//! a task could not run.
use vstd::prelude::*;
use std::time::Duration;
use crate::task_request::TaskRequest;
use crate::task_response::{is_error_response, is_timeout_response, TaskResponse};
use crate::text::{parse_unsigned, parsed_unsigned};

verus! {

/// The duration of `secs` whole seconds, as `Duration::from_secs` makes it.
pub uninterp spec fn duration_of_secs(secs: u64) -> Duration;

/// Calls `std::time::Duration::from_secs`. Claimed: the duration depends on
/// the number of seconds alone, so it is `duration_of_secs` of it.
#[verifier::external_body]
fn duration_from_secs(secs: u64) -> (d: Duration)
    ensures
        d == duration_of_secs(secs),
{
    Duration::from_secs(secs)
}

/// The configuration of the service.
#[derive(Debug)]
pub struct CockpitTaskConfig {
    pub nats_url: String,
    pub subject: String,
    pub request_timeout: Duration,
    pub max_turns: Option<u32>,
    pub max_concurrent_tasks: usize,
}

/// The server to connect to when none is set.
pub open spec fn default_nats_url() -> Seq<char> {
    "nats://localhost:4222"@
}

/// The subject to listen on when none is set.
pub open spec fn default_subject() -> Seq<char> {
    "cockpit.task"@
}

/// A setting read as an unsigned number no greater than `max`, or `default`
/// when it is missing or is not such a number.
pub open spec fn number_setting(setting: Option<String>, max: nat, default: nat) -> nat {
    match setting {
        Some(s) => match parsed_unsigned(s@, max) {
            Some(v) => v,
            None => default,
        },
        None => default,
    }
}

fn read_number(setting: &Option<String>, max: u64, default: u64) -> (v: u64)
    requires
        default <= max,
    ensures
        v == number_setting(*setting, max as nat, default as nat),
{
    match setting {
        Some(s) => match parse_unsigned(s.as_str(), max) {
            Some(v) => v,
            None => default,
        },
        None => default,
    }
}

impl CockpitTaskConfig {
    /// The configuration from the settings as read (each one `None` when it
    /// is not set): the server URL, the subject, the request timeout in
    /// seconds, the maximum number of turns and the number of concurrent
    /// tasks. A missing URL or subject takes its default; a timeout, a
    /// maximum number of turns or a number of tasks that is missing or not a
    /// number takes 300 seconds, 50 turns or 10 tasks.
    pub fn from_settings(
        nats_url: Option<String>,
        subject: Option<String>,
        request_timeout_secs: Option<String>,
        max_turns: Option<String>,
        max_concurrent_tasks: Option<String>,
    ) -> (c: Self)
        ensures
            c.nats_url@ == (match nats_url {
                Some(u) => u@,
                None => default_nats_url(),
            }),
            c.subject@ == (match subject {
                Some(s) => s@,
                None => default_subject(),
            }),
            c.request_timeout == duration_of_secs(
                number_setting(request_timeout_secs, u64::MAX as nat, 300) as u64,
            ),
            c.max_turns == Some(number_setting(max_turns, u32::MAX as nat, 50) as u32),
            c.max_concurrent_tasks == number_setting(max_concurrent_tasks, usize::MAX as nat, 10),
    {
        let nats_url = match nats_url {
            Some(u) => u,
            None => String::from_str("nats://localhost:4222"),
        };
        let subject = match subject {
            Some(s) => s,
            None => String::from_str("cockpit.task"),
        };
        let timeout_secs = read_number(&request_timeout_secs, u64::MAX, 300);
        let max_turns = read_number(&max_turns, 0xffff_ffff, 50) as u32;
        let tasks = read_number(&max_concurrent_tasks, usize::MAX as u64, 10);
        CockpitTaskConfig {
            nats_url,
            subject,
            request_timeout: duration_from_secs(timeout_secs),
            max_turns: Some(max_turns),
            max_concurrent_tasks: tasks as usize,
        }
    }
}

/// What the listener sees.
pub enum ListenerEvent {
    /// A request arrived, with the subject to reply on when it has one.
    Request { reply: Option<String> },
    /// The worker pool no longer takes tasks.
    DispatchFailed,
    /// The subscription ended.
    SubscriptionClosed,
    /// Shutdown was requested.
    ShutdownRequested,
}

/// What the listener does next.
pub enum ListenerAction {
    /// Hand the request to the worker pool, to be answered on `reply_subject`.
    Dispatch { reply_subject: String },
    /// Drop the request: it has no subject to reply on.
    Ignore,
    /// Stop listening and shut down gracefully.
    Stop,
}

/// The listener's decision on an event: a request with a reply subject is
/// dispatched, one without is ignored, and anything else stops the listener.
pub fn listener_action(event: ListenerEvent) -> (a: ListenerAction)
    ensures
        match event {
            ListenerEvent::Request { reply: Some(r) } => a matches ListenerAction::Dispatch {
                reply_subject,
            } && reply_subject == r,
            ListenerEvent::Request { reply: None } => a is Ignore,
            _ => a is Stop,
        },
{
    match event {
        ListenerEvent::Request { reply } => match reply {
            Some(r) => ListenerAction::Dispatch { reply_subject: r },
            None => ListenerAction::Ignore,
        },
        _ => ListenerAction::Stop,
    }
}

/// What a worker sees.
pub enum WorkerEvent {
    /// A task was taken from the queue.
    TaskReceived,
    /// The queue was closed.
    QueueClosed,
    /// Shutdown was requested.
    ShutdownRequested,
}

/// What a worker does next.
pub enum WorkerAction {
    /// Handle the task, then wait for the next event.
    Handle,
    /// Stop the worker.
    Stop,
}

/// A worker's decision on an event: it handles each task it receives and
/// stops when the queue closes or shutdown is requested.
pub fn worker_action(event: WorkerEvent) -> (a: WorkerAction)
    ensures
        (a is Handle) == (event is TaskReceived),
{
    match event {
        WorkerEvent::TaskReceived => WorkerAction::Handle,
        _ => WorkerAction::Stop,
    }
}

/// The time limit of a task: the request's own timeout when it sets one,
/// else the service's request timeout.
pub fn task_time_limit(request: &TaskRequest, config: &CockpitTaskConfig) -> (d: Duration)
    ensures
        d == (match request.timeout_secs {
            Some(secs) => duration_of_secs(secs),
            None => config.request_timeout,
        }),
{
    match request.timeout_secs {
        Some(secs) => duration_from_secs(secs),
        None => config.request_timeout,
    }
}

/// How the run of a task ended, as the service saw it.
pub enum TaskOutcome {
    /// The run finished and gave its response.
    Finished(TaskResponse),
    /// The run could not be carried out; the message says why.
    Failed(String),
    /// The run did not finish within its time limit.
    TimedOut,
}

/// The response owed for `request_id` once the task's run ended: the
/// response of the run, an error response with the message of what failed,
/// or the timeout response; the last two stamped with the current time.
pub fn task_outcome_response(request_id: &str, outcome: TaskOutcome) -> (r: TaskResponse)
    ensures
        match outcome {
            TaskOutcome::Finished(response) => r == response,
            TaskOutcome::Failed(e) => is_error_response(r, request_id@, e@, r.metadata.timestamp),
            TaskOutcome::TimedOut => is_timeout_response(r, request_id@, r.metadata.timestamp),
        },
{
    match outcome {
        TaskOutcome::Finished(response) => response,
        TaskOutcome::Failed(e) => TaskResponse::error(String::from_str(request_id), e),
        TaskOutcome::TimedOut => TaskResponse::timeout(String::from_str(request_id)),
    }
}

} // verus!
