//! The request to run a task: the prompt, the extensions to load, limits,
//! and an optional schema for structured output.
use vstd::prelude::*;
use serde_json::Value;

verus! {

/// The configuration of one extension to load, as the JSON object that
/// describes it.
#[derive(Debug)]
pub struct ExtensionConfig {
    pub config: Value,
}

/// A request for structured output: the JSON schema the final output must
/// follow.
#[derive(Debug)]
pub struct Response {
    pub json_schema: Option<Value>,
}

/// A request to execute a task.
#[derive(Debug)]
pub struct TaskRequest {
    /// The prompt (the instructions to execute).
    pub prompt: String,
    /// Extensions to load.
    pub extensions: Option<Vec<String>>,
    pub remote_extensions: Option<Vec<String>>,
    pub streamable_http_extensions: Option<Vec<String>>,
    pub builtins: Option<Vec<String>>,
    pub extensions_override: Option<Vec<ExtensionConfig>>,
    /// Additions to the system prompt.
    pub additional_system_prompt: Option<String>,
    /// Tool and execution limits.
    pub max_tool_repetitions: Option<u32>,
    pub max_turns: Option<u32>,
    /// The structured output to produce.
    pub final_output_response: Option<Response>,
    /// Metadata.
    pub task_id: Option<String>,
    pub timeout_secs: Option<u64>,
}

impl TaskRequest {
    /// A request that holds only a prompt.
    pub fn simple(prompt: &str) -> (r: Self)
        ensures
            r.prompt@ == prompt@,
            r.extensions is None,
            r.remote_extensions is None,
            r.streamable_http_extensions is None,
            r.builtins is None,
            r.extensions_override is None,
            r.additional_system_prompt is None,
            r.max_tool_repetitions is None,
            r.max_turns is None,
            r.final_output_response is None,
            r.task_id is None,
            r.timeout_secs is None,
    {
        TaskRequest {
            prompt: String::from_str(prompt),
            extensions: None,
            remote_extensions: None,
            streamable_http_extensions: None,
            builtins: None,
            extensions_override: None,
            additional_system_prompt: None,
            max_tool_repetitions: None,
            max_turns: None,
            final_output_response: None,
            task_id: None,
            timeout_secs: None,
        }
    }

    /// The request with the given structured output; all else unchanged.
    pub fn with_structured_output(self, response: Response) -> (r: Self)
        ensures
            r == (TaskRequest { final_output_response: Some(response), ..self }),
    {
        let mut s = self;
        s.final_output_response = Some(response);
        s
    }

    /// The request with the given maximum number of turns; all else unchanged.
    pub fn with_max_turns(self, max_turns: u32) -> (r: Self)
        ensures
            r == (TaskRequest { max_turns: Some(max_turns), ..self }),
    {
        let mut s = self;
        s.max_turns = Some(max_turns);
        s
    }

    /// The request with the given timeout in seconds; all else unchanged.
    pub fn with_timeout(self, timeout_secs: u64) -> (r: Self)
        ensures
            r == (TaskRequest { timeout_secs: Some(timeout_secs), ..self }),
    {
        let mut s = self;
        s.timeout_secs = Some(timeout_secs);
        s
    }
}

} // verus!
