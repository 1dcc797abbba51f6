//! The conversation an agent leaves behind: messages by role, each made of
//! content items (text, tool requests, tool responses and the rest).
use vstd::prelude::*;
use serde_json::Value;

verus! {

/// Who sent a message.
#[derive(Debug, Clone, Copy, PartialEq, Eq, Structural)]
pub enum Role {
    User,
    Assistant,
}

/// One item of what a tool handed back.
#[derive(Debug)]
pub enum ToolOutput {
    /// Plain text.
    Text(String),
    /// Anything else (an image, an embedded resource, ...), as its JSON form.
    Other(Value),
}

/// One item of a message.
#[derive(Debug)]
pub enum MessageContent {
    /// Text written by the sender.
    Text(String),
    /// The assistant asks for a tool to be called; `call` is the JSON form of
    /// the call (the tool's name and arguments, or why they could not be read).
    ToolRequest { id: String, call: Value },
    /// What a tool call returned: its outputs, or the error it failed with.
    ToolResponse { id: String, result: Result<Vec<ToolOutput>, String> },
    /// Any other kind of content (images, thinking, notices, ...), as its
    /// JSON form.
    Other(Value),
}

/// A message of the conversation.
#[derive(Debug)]
pub struct Message {
    pub role: Role,
    pub content: Vec<MessageContent>,
}

/// The text of a string, or nothing.
pub open spec fn opt_text(o: Option<String>) -> Option<Seq<char>> {
    match o {
        Some(s) => Some(s@),
        None => None,
    }
}

} // verus!
