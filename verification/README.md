# cockpit-task

A task service that runs an agent on a prompt received over NATS and replies
with what the agent did. The library under `src/` is verified with Verus:

- `conversation`: the conversation model (roles, text, tool requests and
  responses).
- `agent_executor`: the analysis of a finished run (turns, tool calls, final
  answer, structured output of the final-output tool) and the response it
  yields.
- `task_request`, `task_response`: the request and response messages.
- `service`: the configuration from settings and the decisions of the
  listener and worker loops.
- `text`, `json`: substring search, unsigned decimal parsing, and JSON
  parsing through `serde_json`.

`app/` is the program around it: NATS, the worker pool, the agent session,
and the JSON forms of the messages.
