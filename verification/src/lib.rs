//! Verified core of a task service that runs an agent on a prompt and reports
//! what the agent did: the request and response messages, the conversation
//! model, the analysis of a finished conversation, and the decisions of the
//! service loops.

pub mod json;
pub mod text;
pub mod conversation;
pub mod agent_executor;
pub mod task_response;
pub mod task_request;
pub mod service;
pub mod run_laws;
