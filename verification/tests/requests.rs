use cockpit_task::task_request::{Response, TaskRequest};
use serde_json::Value;

#[test]
fn simple_request_holds_only_the_prompt() {
    let r = TaskRequest::simple("List files");
    assert_eq!(r.prompt, "List files");
    assert!(r.extensions.is_none());
    assert!(r.remote_extensions.is_none());
    assert!(r.streamable_http_extensions.is_none());
    assert!(r.builtins.is_none());
    assert!(r.extensions_override.is_none());
    assert!(r.additional_system_prompt.is_none());
    assert!(r.max_tool_repetitions.is_none());
    assert!(r.max_turns.is_none());
    assert!(r.final_output_response.is_none());
    assert!(r.task_id.is_none());
    assert!(r.timeout_secs.is_none());
}

#[test]
fn builders_set_one_field_each() {
    let schema = serde_json::from_str::<Value>("{\"type\": \"object\"}").unwrap();
    let r = TaskRequest::simple("p")
        .with_max_turns(7)
        .with_timeout(60)
        .with_structured_output(Response { json_schema: Some(schema.clone()) });
    assert_eq!(r.prompt, "p");
    assert_eq!(r.max_turns, Some(7));
    assert_eq!(r.timeout_secs, Some(60));
    assert_eq!(r.final_output_response.unwrap().json_schema, Some(schema));
    assert!(r.extensions.is_none());
    assert!(r.task_id.is_none());
}

#[test]
fn later_builder_call_wins() {
    let r = TaskRequest::simple("p").with_max_turns(3).with_max_turns(5);
    assert_eq!(r.max_turns, Some(5));
}
