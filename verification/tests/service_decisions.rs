use cockpit_task::service::{
    listener_action, task_outcome_response, task_time_limit, worker_action, CockpitTaskConfig,
    ListenerAction, ListenerEvent, TaskOutcome, WorkerAction, WorkerEvent,
};
use cockpit_task::task_request::TaskRequest;
use cockpit_task::task_response::{TaskResponse, TaskStatus};
use std::time::Duration;

fn s(x: &str) -> Option<String> {
    Some(x.to_string())
}

#[test]
fn defaults_when_nothing_is_set() {
    let c = CockpitTaskConfig::from_settings(None, None, None, None, None);
    assert_eq!(c.nats_url, "nats://localhost:4222");
    assert_eq!(c.subject, "cockpit.task");
    assert_eq!(c.request_timeout, Duration::from_secs(300));
    assert_eq!(c.max_turns, Some(50));
    assert_eq!(c.max_concurrent_tasks, 10);
}

#[test]
fn settings_that_are_set_are_used() {
    let c = CockpitTaskConfig::from_settings(
        s("nats://broker:4222"),
        s("cockpit.task"),
        s("45"),
        s("+12"),
        s("3"),
    );
    assert_eq!(c.nats_url, "nats://broker:4222");
    assert_eq!(c.subject, "cockpit.task");
    assert_eq!(c.request_timeout, Duration::from_secs(45));
    assert_eq!(c.max_turns, Some(12));
    assert_eq!(c.max_concurrent_tasks, 3);
}

#[test]
fn numbers_that_do_not_parse_fall_back() {
    let c = CockpitTaskConfig::from_settings(None, None, s("ten"), s("-1"), s(" 4"));
    assert_eq!(c.request_timeout, Duration::from_secs(300));
    assert_eq!(c.max_turns, Some(50));
    assert_eq!(c.max_concurrent_tasks, 10);
}

#[test]
fn max_turns_out_of_range_falls_back() {
    let c = CockpitTaskConfig::from_settings(None, None, s("18446744073709551616"), s("4294967296"), None);
    assert_eq!(c.max_turns, Some(50));
    assert_eq!(c.request_timeout, Duration::from_secs(300));
    let c = CockpitTaskConfig::from_settings(None, None, s("18446744073709551615"), s("4294967295"), None);
    assert_eq!(c.max_turns, Some(u32::MAX));
    assert_eq!(c.request_timeout, Duration::from_secs(u64::MAX));
}

#[test]
fn listener_dispatches_requests_with_a_reply_subject() {
    match listener_action(ListenerEvent::Request { reply: s("_INBOX.1") }) {
        ListenerAction::Dispatch { reply_subject } => assert_eq!(reply_subject, "_INBOX.1"),
        _ => panic!("expected a dispatch"),
    }
}

#[test]
fn listener_ignores_requests_without_reply_subject() {
    assert!(matches!(listener_action(ListenerEvent::Request { reply: None }), ListenerAction::Ignore));
}

#[test]
fn listener_stops_on_close_failure_or_shutdown() {
    assert!(matches!(listener_action(ListenerEvent::SubscriptionClosed), ListenerAction::Stop));
    assert!(matches!(listener_action(ListenerEvent::DispatchFailed), ListenerAction::Stop));
    assert!(matches!(listener_action(ListenerEvent::ShutdownRequested), ListenerAction::Stop));
}

#[test]
fn worker_handles_tasks_and_stops_otherwise() {
    assert!(matches!(worker_action(WorkerEvent::TaskReceived), WorkerAction::Handle));
    assert!(matches!(worker_action(WorkerEvent::QueueClosed), WorkerAction::Stop));
    assert!(matches!(worker_action(WorkerEvent::ShutdownRequested), WorkerAction::Stop));
}

#[test]
fn failed_task_gets_an_error_response() {
    let r = task_outcome_response("r9", TaskOutcome::Failed("session could not start".to_string()));
    assert!(r.is_error());
    assert_eq!(r.request_id, "r9");
    assert_eq!(r.error, Some("session could not start".to_string()));
    assert_eq!(r.metadata.session_id, "error_r9");
}

#[test]
fn finished_task_keeps_its_response() {
    let given = TaskResponse::timeout_at("r8".to_string(), 1);
    let r = task_outcome_response("other", TaskOutcome::Finished(given));
    assert_eq!(r.request_id, "r8");
    assert_eq!(r.metadata.session_id, "timeout_r8");
}

#[test]
fn timed_out_task_gets_the_timeout_response() {
    let r = task_outcome_response("r7", TaskOutcome::TimedOut);
    assert!(matches!(r.status, TaskStatus::Timeout));
    assert_eq!(r.request_id, "r7");
    assert_eq!(r.error, Some("Task execution timed out".to_string()));
    assert_eq!(r.metadata.session_id, "timeout_r7");
}

#[test]
fn time_limit_is_the_request_timeout_else_the_service_timeout() {
    let c = CockpitTaskConfig::from_settings(None, None, s("120"), None, None);
    assert_eq!(task_time_limit(&TaskRequest::simple("p"), &c), Duration::from_secs(120));
    let request = TaskRequest::simple("p").with_timeout(7);
    assert_eq!(task_time_limit(&request, &c), Duration::from_secs(7));
}
