//! The response to a task request: its status, the conversation, the final
//! answer, the structured output, an error message and metadata.
use vstd::prelude::*;
use serde_json::Value;
use std::time::{Duration, SystemTime};
use crate::conversation::{opt_text, Message};

verus! {

#[verifier::external_type_specification]
#[verifier::external_body]
pub struct ExSystemTime(std::time::SystemTime);

/// How a task ended.
#[derive(Debug, Clone, Copy, PartialEq, Eq, Structural)]
pub enum TaskStatus {
    Success,
    Error,
    Timeout,
    Cancelled,
}

/// What is known of a run besides its conversation.
#[derive(Debug, Clone)]
pub struct TaskMetadata {
    /// The session that was created.
    pub session_id: String,
    /// The number of agent turns taken.
    pub turns_taken: u32,
    /// The number of tool calls made.
    pub tool_calls_made: u32,
    /// The execution time in milliseconds.
    pub execution_time_ms: u64,
    /// Token usage, when known.
    pub total_tokens: Option<u32>,
    pub input_tokens: Option<u32>,
    pub output_tokens: Option<u32>,
    /// When the response was made, in seconds since the Unix epoch.
    pub timestamp: u64,
    /// Whether the final-output tool delivered structured output.
    pub final_output_called: bool,
    /// The working directory of the run.
    pub working_dir: Option<String>,
}

/// The response to one task request.
#[derive(Debug)]
pub struct TaskResponse {
    /// The request identifier.
    pub request_id: String,
    /// How the task ended.
    pub status: TaskStatus,
    /// All messages of the conversation.
    pub messages: Vec<Message>,
    /// The final answer (the text of the last assistant message).
    pub final_response: Option<String>,
    /// Structured output, when the final-output tool delivered it.
    pub structured_output: Option<Value>,
    /// What went wrong, when the task failed.
    pub error: Option<String>,
    /// Metadata of the run.
    pub metadata: TaskMetadata,
}

/// Metadata of a run that produced nothing: the given session and time,
/// zero counts, and nothing else.
pub open spec fn is_empty_run_metadata(m: TaskMetadata, session_id: Seq<char>, timestamp: u64) -> bool {
    &&& m.session_id@ == session_id
    &&& m.turns_taken == 0
    &&& m.tool_calls_made == 0
    &&& m.execution_time_ms == 0
    &&& m.total_tokens is None
    &&& m.input_tokens is None
    &&& m.output_tokens is None
    &&& m.timestamp == timestamp
    &&& !m.final_output_called
    &&& m.working_dir is None
}

/// A failed task's response, made at `timestamp`: status `status`, no
/// conversation, the error message `error`, and the session
/// `session_prefix` followed by the request id.
pub open spec fn is_failure_response(
    r: TaskResponse,
    status: TaskStatus,
    session_prefix: Seq<char>,
    request_id: Seq<char>,
    error: Seq<char>,
    timestamp: u64,
) -> bool {
    &&& r.request_id@ == request_id
    &&& r.status == status
    &&& r.messages@.len() == 0
    &&& r.final_response is None
    &&& r.structured_output is None
    &&& opt_text(r.error) == Some(error)
    &&& is_empty_run_metadata(r.metadata, session_prefix + request_id, timestamp)
}

/// The error response for `request_id` with message `error`, made at `timestamp`.
pub open spec fn is_error_response(
    r: TaskResponse,
    request_id: Seq<char>,
    error: Seq<char>,
    timestamp: u64,
) -> bool {
    is_failure_response(r, TaskStatus::Error, "error_"@, request_id, error, timestamp)
}

/// The timeout response for `request_id`, made at `timestamp`.
pub open spec fn is_timeout_response(r: TaskResponse, request_id: Seq<char>, timestamp: u64) -> bool {
    is_failure_response(
        r,
        TaskStatus::Timeout,
        "timeout_"@,
        request_id,
        "Task execution timed out"@,
        timestamp,
    )
}

/// Calls `std::time::SystemTime::now`. Nothing is claimed of the reading.
#[verifier::external_body]
fn clock_now() -> SystemTime {
    SystemTime::now()
}

/// Calls `SystemTime::duration_since` with `SystemTime::UNIX_EPOCH`, with
/// `None` in place of the error it gives for a time before the epoch.
/// Nothing is claimed of the duration.
#[verifier::external_body]
fn since_unix_epoch(t: SystemTime) -> Option<Duration> {
    t.duration_since(SystemTime::UNIX_EPOCH).ok()
}

/// Calls `Duration::as_secs`. Nothing is claimed of the number.
#[verifier::external_body]
fn whole_seconds(d: Duration) -> u64 {
    d.as_secs()
}

/// The current time in whole seconds since the Unix epoch; a clock that
/// reads before the epoch gives 0.
fn unix_timestamp() -> u64 {
    match since_unix_epoch(clock_now()) {
        Some(d) => whole_seconds(d),
        None => 0,
    }
}

/// `prefix` followed by `s`.
pub fn prefixed(prefix: &str, s: &str) -> (res: String)
    ensures
        res@ == prefix@ + s@,
{
    let mut res = String::from_str(prefix);
    res.append(s);
    res
}

/// Error and timeout responses are never successes; an error response is an
/// error and a timeout response is not.
pub proof fn lemma_failures_are_not_successes(
    r: TaskResponse,
    request_id: Seq<char>,
    error: Seq<char>,
    timestamp: u64,
)
    ensures
        is_error_response(r, request_id, error, timestamp) ==> r.status != TaskStatus::Success
            && r.status == TaskStatus::Error,
        is_timeout_response(r, request_id, timestamp) ==> r.status != TaskStatus::Success
            && r.status != TaskStatus::Error && r.error is Some,
{
}

impl TaskResponse {
    /// A successful response.
    pub fn success(
        request_id: String,
        messages: Vec<Message>,
        final_response: Option<String>,
        structured_output: Option<Value>,
        metadata: TaskMetadata,
    ) -> (r: Self)
        ensures
            r.request_id == request_id,
            r.status == TaskStatus::Success,
            r.messages == messages,
            r.final_response == final_response,
            r.structured_output == structured_output,
            r.error is None,
            r.metadata == metadata,
    {
        TaskResponse {
            request_id,
            status: TaskStatus::Success,
            messages,
            final_response,
            structured_output,
            error: None,
            metadata,
        }
    }

    /// The error response for `request_id` with message `error`, made at
    /// the given time.
    pub fn error_at(request_id: String, error: String, timestamp: u64) -> (r: Self)
        ensures
            is_error_response(r, request_id@, error@, timestamp),
    {
        let session_id = prefixed("error_", request_id.as_str());
        proof {
            reveal_strlit("error_");
        }
        TaskResponse {
            request_id,
            status: TaskStatus::Error,
            messages: Vec::new(),
            final_response: None,
            structured_output: None,
            error: Some(error),
            metadata: TaskMetadata {
                session_id,
                turns_taken: 0,
                tool_calls_made: 0,
                execution_time_ms: 0,
                total_tokens: None,
                input_tokens: None,
                output_tokens: None,
                timestamp,
                final_output_called: false,
                working_dir: None,
            },
        }
    }

    /// The error response for `request_id` with message `error`, stamped
    /// with the current time.
    pub fn error(request_id: String, error: String) -> (r: Self)
        ensures
            is_error_response(r, request_id@, error@, r.metadata.timestamp),
    {
        let timestamp = unix_timestamp();
        Self::error_at(request_id, error, timestamp)
    }

    /// The timeout response for `request_id`, made at the given time.
    pub fn timeout_at(request_id: String, timestamp: u64) -> (r: Self)
        ensures
            is_timeout_response(r, request_id@, timestamp),
    {
        let session_id = prefixed("timeout_", request_id.as_str());
        let error = String::from_str("Task execution timed out");
        TaskResponse {
            request_id,
            status: TaskStatus::Timeout,
            messages: Vec::new(),
            final_response: None,
            structured_output: None,
            error: Some(error),
            metadata: TaskMetadata {
                session_id,
                turns_taken: 0,
                tool_calls_made: 0,
                execution_time_ms: 0,
                total_tokens: None,
                input_tokens: None,
                output_tokens: None,
                timestamp,
                final_output_called: false,
                working_dir: None,
            },
        }
    }

    /// The timeout response for `request_id`, stamped with the current time.
    pub fn timeout(request_id: String) -> (r: Self)
        ensures
            is_timeout_response(r, request_id@, r.metadata.timestamp),
    {
        let timestamp = unix_timestamp();
        Self::timeout_at(request_id, timestamp)
    }

    /// Whether the task completed successfully.
    pub fn is_success(&self) -> (b: bool)
        ensures
            b == (self.status == TaskStatus::Success),
    {
        match self.status {
            TaskStatus::Success => true,
            _ => false,
        }
    }

    /// Whether the task failed with an error.
    pub fn is_error(&self) -> (b: bool)
        ensures
            b == (self.status == TaskStatus::Error),
    {
        match self.status {
            TaskStatus::Error => true,
            _ => false,
        }
    }
}

} // verus!
