use cockpit_task::agent_executor::{
    count_interactions, execution_response, extract_final_response, extract_structured_output,
    final_output_candidates, first_json, interactions_fit, task_session_id,
};
use cockpit_task::conversation::{Message, MessageContent, Role, ToolOutput};
use cockpit_task::task_response::TaskStatus;
use serde_json::Value;

fn text(s: &str) -> MessageContent {
    MessageContent::Text(s.to_string())
}

fn tool_request(id: &str) -> MessageContent {
    MessageContent::ToolRequest { id: id.to_string(), call: Value::Null }
}

fn tool_response(id: &str, outputs: Vec<ToolOutput>) -> MessageContent {
    MessageContent::ToolResponse { id: id.to_string(), result: Ok(outputs) }
}

fn out(s: &str) -> ToolOutput {
    ToolOutput::Text(s.to_string())
}

fn msg(role: Role, content: Vec<MessageContent>) -> Message {
    Message { role, content }
}

fn json(s: &str) -> Value {
    serde_json::from_str::<Value>(s).unwrap()
}

fn sample_conversation() -> Vec<Message> {
    vec![
        msg(Role::User, vec![text("list the files")]),
        msg(Role::Assistant, vec![text("looking"), tool_request("call_1"), tool_request("call_2")]),
        msg(Role::User, vec![tool_response("call_1", vec![out("a.txt")])]),
        msg(Role::Assistant, vec![tool_request("final_output_1")]),
        msg(
            Role::User,
            vec![tool_response("final_output_1", vec![out("not json"), out("{\"files\": 2}")])],
        ),
        msg(Role::Assistant, vec![MessageContent::Other(Value::Null), text("There are two files.")]),
    ]
}

#[test]
fn counts_turns_and_tool_calls() {
    let conversation = sample_conversation();
    assert_eq!(count_interactions(&conversation), (3, 3));
}

#[test]
fn counts_nothing_in_an_empty_conversation() {
    assert_eq!(count_interactions(&[]), (0, 0));
}

#[test]
fn tool_requests_outside_assistant_messages_are_not_counted() {
    let conversation = vec![msg(Role::User, vec![tool_request("x"), tool_request("y")])];
    assert_eq!(count_interactions(&conversation), (0, 0));
}

#[test]
fn counting_joined_conversations_adds_up() {
    let mut a = sample_conversation();
    let b = vec![msg(Role::Assistant, vec![tool_request("z")]), msg(Role::User, vec![text("ok")])];
    let (ta, ca) = count_interactions(&a);
    let (tb, cb) = count_interactions(&b);
    a.extend(b);
    assert_eq!(count_interactions(&a), (ta + tb, ca + cb));
}

#[test]
fn small_conversations_fit_the_counters() {
    assert!(interactions_fit(&sample_conversation()));
    assert!(interactions_fit(&[]));
}

#[test]
fn final_response_is_first_text_of_last_assistant_message() {
    let conversation = sample_conversation();
    assert_eq!(extract_final_response(&conversation), Some("There are two files.".to_string()));
}

#[test]
fn final_response_ignores_later_user_messages() {
    let mut conversation = sample_conversation();
    conversation.push(msg(Role::User, vec![text("thanks")]));
    assert_eq!(extract_final_response(&conversation), Some("There are two files.".to_string()));
}

#[test]
fn final_response_is_none_when_last_assistant_message_has_no_text() {
    let conversation = vec![
        msg(Role::Assistant, vec![text("earlier")]),
        msg(Role::Assistant, vec![tool_request("t")]),
    ];
    assert_eq!(extract_final_response(&conversation), None);
}

#[test]
fn final_response_is_none_without_assistant_messages() {
    let conversation = vec![msg(Role::User, vec![text("hello")])];
    assert_eq!(extract_final_response(&conversation), None);
}

#[test]
fn structured_output_is_first_json_output_of_final_output_tool() {
    let conversation = sample_conversation();
    let (value, called) = extract_structured_output(&conversation);
    assert_eq!(value, Some(json("{\"files\": 2}")));
    assert!(called);
}

#[test]
fn structured_output_needs_final_output_in_the_tool_id() {
    let conversation = vec![msg(Role::User, vec![tool_response("call_9", vec![out("{\"a\": 1}")])])];
    assert_eq!(extract_structured_output(&conversation), (None, false));
}

#[test]
fn structured_output_ignores_failed_tool_calls() {
    let conversation = vec![msg(
        Role::User,
        vec![MessageContent::ToolResponse {
            id: "final_output".to_string(),
            result: Err("boom".to_string()),
        }],
    )];
    assert_eq!(extract_structured_output(&conversation), (None, false));
}

#[test]
fn structured_output_ignores_assistant_messages() {
    let conversation = vec![msg(Role::Assistant, vec![tool_response("final_output", vec![out("[1]")])])];
    assert_eq!(extract_structured_output(&conversation), (None, false));
}

#[test]
fn structured_output_takes_the_latest_user_message() {
    let conversation = vec![
        msg(Role::User, vec![tool_response("final_output", vec![out("1")])]),
        msg(Role::User, vec![tool_response("my_final_output_tool", vec![ToolOutput::Other(Value::Null), out("2")])]),
        msg(Role::Assistant, vec![text("done")]),
    ];
    assert_eq!(extract_structured_output(&conversation), (Some(json("2")), true));
}

#[test]
fn structured_output_skips_texts_that_are_not_json() {
    let conversation = vec![msg(Role::User, vec![tool_response("final_output", vec![out("{oops")])])];
    assert_eq!(extract_structured_output(&conversation), (None, true));
}

#[test]
fn final_output_tool_counts_as_called_when_its_text_is_not_json() {
    let conversation = vec![msg(Role::User, vec![tool_response("final_output_1", vec![out("done")])])];
    let (value, called) = extract_structured_output(&conversation);
    assert_eq!(value, None);
    assert!(called);
    let r = execution_response("r", Ok(conversation), 0, 0, None);
    assert!(r.metadata.final_output_called);
    assert_eq!(r.structured_output, None);
}

#[test]
fn messages_of_other_roles_are_never_counted() {
    let base = sample_conversation();
    let counts = count_interactions(&base);
    for position in 0..=base.len() {
        let mut with_user = sample_conversation();
        with_user.insert(position, msg(Role::User, vec![tool_request("u1"), text("x")]));
        assert_eq!(count_interactions(&with_user), counts);
    }
}

#[test]
fn session_of_a_run_is_task_prefixed() {
    assert_eq!(task_session_id("42"), "task_42");
    assert_eq!(task_session_id(""), "task_");
}

#[test]
fn run_response_reports_the_conversation() {
    let r = execution_response(
        "req-1",
        Ok(sample_conversation()),
        1500,
        1_700_000_000,
        Some("/work".to_string()),
    );
    assert!(r.is_success());
    assert!(!r.is_error());
    assert_eq!(r.request_id, "req-1");
    assert!(matches!(r.status, TaskStatus::Success));
    assert_eq!(r.messages.len(), 6);
    assert_eq!(r.final_response, Some("There are two files.".to_string()));
    assert_eq!(r.structured_output, Some(json("{\"files\": 2}")));
    assert_eq!(r.error, None);
    assert_eq!(r.metadata.session_id, "task_req-1");
    assert_eq!(r.metadata.turns_taken, 3);
    assert_eq!(r.metadata.tool_calls_made, 3);
    assert_eq!(r.metadata.execution_time_ms, 1500);
    assert_eq!(r.metadata.total_tokens, None);
    assert_eq!(r.metadata.input_tokens, None);
    assert_eq!(r.metadata.output_tokens, None);
    assert_eq!(r.metadata.timestamp, 1_700_000_000);
    assert!(r.metadata.final_output_called);
    assert_eq!(r.metadata.working_dir, Some("/work".to_string()));
}

#[test]
fn run_without_structured_output_reports_final_output_not_called() {
    let conversation = vec![msg(Role::Assistant, vec![text("hi")])];
    let r = execution_response("r", Ok(conversation), 0, 5, None);
    assert_eq!(r.structured_output, None);
    assert!(!r.metadata.final_output_called);
    assert_eq!(r.final_response, Some("hi".to_string()));
}

#[test]
fn failed_run_gives_an_error_response() {
    let r = execution_response("req-2", Err("provider down".to_string()), 99, 77, Some("/w".to_string()));
    assert!(r.is_error());
    assert!(!r.is_success());
    assert_eq!(r.error, Some("Agent execution failed: provider down".to_string()));
    assert_eq!(r.metadata.session_id, "error_req-2");
    assert_eq!(r.metadata.timestamp, 77);
    assert_eq!(r.metadata.execution_time_ms, 0);
    assert_eq!(r.metadata.working_dir, None);
    assert!(r.messages.is_empty());
}

#[test]
fn candidates_come_from_final_output_responses_latest_first() {
    let conversation = vec![
        msg(Role::User, vec![tool_response("final_output", vec![out("a"), ToolOutput::Other(Value::Null), out("b")])]),
        msg(Role::Assistant, vec![tool_response("final_output", vec![out("ignored")])]),
        msg(
            Role::User,
            vec![
                tool_response("other_tool", vec![out("skipped")]),
                tool_response("x_final_output", vec![out("c")]),
                MessageContent::ToolResponse { id: "final_output".to_string(), result: Err("e".to_string()) },
                tool_response("final_output", vec![out("d")]),
            ],
        ),
    ];
    assert_eq!(final_output_candidates(&conversation), vec!["c", "d", "a", "b"]);
}

#[test]
fn first_json_takes_the_first_text_that_parses() {
    let texts: Vec<String> = vec!["nope".to_string(), "[1, 2]".to_string(), "3".to_string()];
    assert_eq!(first_json(&texts), Some(json("[1, 2]")));
    assert_eq!(first_json(&["{".to_string()]), None);
    assert_eq!(first_json(&[]), None);
}
