//! What a finished agent run amounts to: the turns and tool calls it made,
//! its final answer, and the structured output of its final-output tool.
use vstd::prelude::*;
use crate::conversation::{opt_text, Message, MessageContent, Role, ToolOutput};
use crate::json::{parse_json, parsed_json};
use crate::text::{contains_str, holds_substring};
use serde_json::Value;
use crate::task_response::{is_error_response, prefixed, TaskMetadata, TaskResponse, TaskStatus};

verus! {

/// The number of tool requests among `contents`.
pub open spec fn tool_requests(contents: Seq<MessageContent>) -> nat
    decreases contents.len(),
{
    if contents.len() == 0 {
        0
    } else {
        tool_requests(contents.drop_last()) + if contents.last() is ToolRequest {
            1nat
        } else {
            0nat
        }
    }
}

/// The number of agent turns: messages sent by the assistant.
pub open spec fn turns(messages: Seq<Message>) -> nat
    decreases messages.len(),
{
    if messages.len() == 0 {
        0
    } else {
        turns(messages.drop_last()) + if messages.last().role == Role::Assistant {
            1nat
        } else {
            0nat
        }
    }
}

/// The number of tool calls: tool requests in messages sent by the assistant.
pub open spec fn tool_calls(messages: Seq<Message>) -> nat
    decreases messages.len(),
{
    if messages.len() == 0 {
        0
    } else {
        tool_calls(messages.drop_last()) + if messages.last().role == Role::Assistant {
            tool_requests(messages.last().content@)
        } else {
            0nat
        }
    }
}

/// Tool requests of joined content lists add up.
pub proof fn lemma_tool_requests_concat(a: Seq<MessageContent>, b: Seq<MessageContent>)
    ensures
        tool_requests(a + b) == tool_requests(a) + tool_requests(b),
    decreases b.len(),
{
    if b.len() == 0 {
        assert(a + b =~= a);
    } else {
        lemma_tool_requests_concat(a, b.drop_last());
        assert((a + b).drop_last() =~= a + b.drop_last());
    }
}

/// Counting is additive: the turns and tool calls of two conversations joined
/// are the sums of those of each.
pub proof fn lemma_interactions_concat(a: Seq<Message>, b: Seq<Message>)
    ensures
        turns(a + b) == turns(a) + turns(b),
        tool_calls(a + b) == tool_calls(a) + tool_calls(b),
    decreases b.len(),
{
    if b.len() == 0 {
        assert(a + b =~= a);
    } else {
        lemma_interactions_concat(a, b.drop_last());
        assert((a + b).drop_last() =~= a + b.drop_last());
    }
}

/// A message the assistant did not send is never counted: inserting it
/// anywhere in a conversation leaves the turns and the tool calls unchanged.
pub proof fn lemma_non_assistant_message_not_counted(
    before: Seq<Message>,
    message: Message,
    after: Seq<Message>,
)
    requires
        message.role != Role::Assistant,
    ensures
        turns(before + seq![message] + after) == turns(before + after),
        tool_calls(before + seq![message] + after) == tool_calls(before + after),
{
    lemma_interactions_concat(before + seq![message], after);
    lemma_interactions_concat(before, seq![message]);
    lemma_interactions_concat(before, after);
    let single = seq![message];
    assert(single.drop_last() =~= Seq::<Message>::empty());
    assert(single.last() == message);
    assert(single.len() == 1);
    assert(turns(single.drop_last()) == 0);
    assert(tool_calls(single.drop_last()) == 0);
    assert(turns(single) == 0);
    assert(tool_calls(single) == 0);
}

proof fn lemma_counts_of_prefix(messages: Seq<Message>, i: int)
    requires
        0 <= i <= messages.len(),
    ensures
        turns(messages.take(i)) <= turns(messages),
        tool_calls(messages.take(i)) <= tool_calls(messages),
{
    lemma_interactions_concat(messages.take(i), messages.skip(i));
    assert(messages.take(i) + messages.skip(i) =~= messages);
}

proof fn lemma_tool_requests_of_prefix(contents: Seq<MessageContent>, j: int)
    requires
        0 <= j <= contents.len(),
    ensures
        tool_requests(contents.take(j)) <= tool_requests(contents),
{
    lemma_tool_requests_concat(contents.take(j), contents.skip(j));
    assert(contents.take(j) + contents.skip(j) =~= contents);
}

/// Counts the agent turns (assistant messages) and the tool calls (tool
/// requests in assistant messages) of a conversation.
pub fn count_interactions(messages: &[Message]) -> (res: (u32, u32))
    requires
        turns(messages@) <= u32::MAX,
        tool_calls(messages@) <= u32::MAX,
    ensures
        res.0 == turns(messages@),
        res.1 == tool_calls(messages@),
{
    let mut turns_taken: u32 = 0;
    let mut tool_calls_made: u32 = 0;
    let mut i: usize = 0;
    while i < messages.len()
        invariant
            i <= messages@.len(),
            turns(messages@) <= u32::MAX,
            tool_calls(messages@) <= u32::MAX,
            turns_taken == turns(messages@.take(i as int)),
            tool_calls_made == tool_calls(messages@.take(i as int)),
        decreases messages@.len() - i,
    {
        let message = &messages[i];
        proof {
            assert(messages@.take(i + 1).drop_last() =~= messages@.take(i as int));
            lemma_counts_of_prefix(messages@, i + 1);
        }
        match message.role {
            Role::Assistant => {
                turns_taken = turns_taken + 1;
                let mut j: usize = 0;
                while j < message.content.len()
                    invariant
                        j <= message.content@.len(),
                        tool_calls(messages@.take(i as int)) + tool_requests(message.content@)
                            <= u32::MAX,
                        tool_calls_made == tool_calls(messages@.take(i as int)) + tool_requests(
                            message.content@.take(j as int),
                        ),
                    decreases message.content@.len() - j,
                {
                    proof {
                        assert(message.content@.take(j + 1).drop_last() =~= message.content@.take(
                            j as int,
                        ));
                        lemma_tool_requests_of_prefix(message.content@, j + 1);
                    }
                    if let MessageContent::ToolRequest { .. } = &message.content[j] {
                        tool_calls_made = tool_calls_made + 1;
                    }
                    j = j + 1;
                }
                assert(message.content@.take(j as int) =~= message.content@);
            },
            _ => {},
        }
        i = i + 1;
    }
    assert(messages@.take(i as int) =~= messages@);
    (turns_taken, tool_calls_made)
}

/// The text of the first text item among `contents`, if any.
pub open spec fn first_text(contents: Seq<MessageContent>) -> Option<Seq<char>>
    decreases contents.len(),
{
    if contents.len() == 0 {
        None
    } else {
        match contents[0] {
            MessageContent::Text(t) => Some(t@),
            _ => first_text(contents.drop_first()),
        }
    }
}

/// The final response: the first text of the last assistant message, if
/// there is one (none when that message holds no text).
pub open spec fn final_response(messages: Seq<Message>) -> Option<Seq<char>>
    decreases messages.len(),
{
    if messages.len() == 0 {
        None
    } else if messages.last().role == Role::Assistant {
        first_text(messages.last().content@)
    } else {
        final_response(messages.drop_last())
    }
}

fn first_text_of(contents: &Vec<MessageContent>) -> (res: Option<String>)
    ensures
        opt_text(res) == first_text(contents@),
{
    let mut j: usize = 0;
    assert(contents@.skip(0) =~= contents@);
    while j < contents.len()
        invariant
            j <= contents@.len(),
            first_text(contents@) == first_text(contents@.skip(j as int)),
        decreases contents@.len() - j,
    {
        assert(contents@.skip(j as int)[0] == contents@[j as int]);
        if let MessageContent::Text(t) = &contents[j] {
            return Some(t.clone());
        }
        assert(contents@.skip(j as int).drop_first() =~= contents@.skip(j + 1));
        j = j + 1;
    }
    None
}

/// The final response of a conversation: the first text of the last message
/// sent by the assistant.
pub fn extract_final_response(messages: &[Message]) -> (res: Option<String>)
    ensures
        opt_text(res) == final_response(messages@),
{
    let mut i: usize = messages.len();
    assert(messages@.take(i as int) =~= messages@);
    while i > 0
        invariant
            i <= messages@.len(),
            final_response(messages@) == final_response(messages@.take(i as int)),
        decreases i,
    {
        let message = &messages[i - 1];
        assert(messages@.take(i as int).last() == messages@[i - 1]);
        if message.role == Role::Assistant {
            return first_text_of(&message.content);
        }
        assert(messages@.take(i as int).drop_last() =~= messages@.take(i - 1));
        i = i - 1;
    }
    None
}

/// The texts among the outputs of a tool, in order.
pub open spec fn output_texts(outputs: Seq<ToolOutput>) -> Seq<Seq<char>>
    decreases outputs.len(),
{
    if outputs.len() == 0 {
        Seq::empty()
    } else {
        output_texts(outputs.drop_last()) + match outputs.last() {
            ToolOutput::Text(t) => seq![t@],
            ToolOutput::Other(_) => Seq::empty(),
        }
    }
}

/// The texts that a content item offers as structured output: the output
/// texts of a successful response of the final-output tool.
pub open spec fn content_candidates(content: MessageContent) -> Seq<Seq<char>> {
    match content {
        MessageContent::ToolResponse { id, result: Ok(outputs) } => if holds_substring(
            id@,
            "final_output"@,
        ) {
            output_texts(outputs@)
        } else {
            Seq::empty()
        },
        _ => Seq::empty(),
    }
}

/// The texts that a message's items offer as structured output, in order.
pub open spec fn contents_candidates(contents: Seq<MessageContent>) -> Seq<Seq<char>>
    decreases contents.len(),
{
    if contents.len() == 0 {
        Seq::empty()
    } else {
        contents_candidates(contents.drop_last()) + content_candidates(contents.last())
    }
}

/// The texts that a conversation offers as structured output, in the order
/// in which they are tried: user messages from the last back to the first
/// (tool responses come back in user messages), and within a message its
/// items and their outputs in order.
pub open spec fn final_output_texts(messages: Seq<Message>) -> Seq<Seq<char>>
    decreases messages.len(),
{
    if messages.len() == 0 {
        Seq::empty()
    } else {
        (if messages.last().role == Role::User {
            contents_candidates(messages.last().content@)
        } else {
            Seq::empty()
        }) + final_output_texts(messages.drop_last())
    }
}

/// The value of the first text, in order, that parses as JSON.
pub open spec fn first_parsed_json(texts: Seq<Seq<char>>) -> Option<Value>
    decreases texts.len(),
{
    if texts.len() == 0 {
        None
    } else if parsed_json(texts[0]) is Some {
        parsed_json(texts[0])
    } else {
        first_parsed_json(texts.drop_first())
    }
}

/// The structured output of a conversation: the first text that it offers
/// as structured output and that parses as JSON.
pub open spec fn structured_output(messages: Seq<Message>) -> Option<Value> {
    first_parsed_json(final_output_texts(messages))
}

/// The texts of a list of strings.
pub open spec fn texts_of(strings: Seq<String>) -> Seq<Seq<char>> {
    strings.map_values(|s: String| s@)
}

fn push_output_texts(res: &mut Vec<String>, outputs: &Vec<ToolOutput>)
    ensures
        texts_of(final(res)@) == texts_of(old(res)@) + output_texts(outputs@),
{
    let ghost start = texts_of(res@);
    let mut k: usize = 0;
    while k < outputs.len()
        invariant
            k <= outputs@.len(),
            texts_of(res@) == start + output_texts(outputs@.take(k as int)),
        decreases outputs@.len() - k,
    {
        proof {
            assert(outputs@.take(k + 1).drop_last() =~= outputs@.take(k as int));
            assert(outputs@.take(k + 1).last() == outputs@[k as int]);
        }
        let ghost before = res@;
        if let ToolOutput::Text(text) = &outputs[k] {
            res.push(text.clone());
            assert(texts_of(res@) =~= texts_of(before) + seq![text@]);
        } else {
            assert(output_texts(outputs@.take(k + 1)) =~= output_texts(outputs@.take(k as int)));
        }
        k = k + 1;
    }
    assert(outputs@.take(k as int) =~= outputs@);
}

fn push_contents_candidates(res: &mut Vec<String>, contents: &Vec<MessageContent>)
    ensures
        texts_of(final(res)@) == texts_of(old(res)@) + contents_candidates(contents@),
{
    let ghost start = texts_of(res@);
    let mut j: usize = 0;
    while j < contents.len()
        invariant
            j <= contents@.len(),
            texts_of(res@) == start + contents_candidates(contents@.take(j as int)),
        decreases contents@.len() - j,
    {
        proof {
            assert(contents@.take(j + 1).drop_last() =~= contents@.take(j as int));
            assert(contents@.take(j + 1).last() == contents@[j as int]);
        }
        let ghost before = texts_of(res@);
        let mut pushed = false;
        if let MessageContent::ToolResponse { id, result } = &contents[j] {
            if contains_str(id.as_str(), "final_output") {
                if let Ok(outputs) = result {
                    push_output_texts(res, outputs);
                    pushed = true;
                }
            }
        }
        if !pushed {
            assert(content_candidates(contents@[j as int]) =~= Seq::<Seq<char>>::empty());
        }
        assert(texts_of(res@) =~= start + contents_candidates(contents@.take(j + 1)));
        j = j + 1;
    }
    assert(contents@.take(j as int) =~= contents@);
}

/// The texts that a conversation offers as structured output, in the order
/// in which they are tried: the output texts of successful responses of the
/// final-output tool (a tool whose id contains `final_output`), from the last
/// user message back to the first.
pub fn final_output_candidates(messages: &[Message]) -> (res: Vec<String>)
    ensures
        texts_of(res@) == final_output_texts(messages@),
{
    let mut res: Vec<String> = Vec::new();
    let mut i: usize = messages.len();
    assert(messages@.take(i as int) =~= messages@);
    assert(texts_of(res@) =~= Seq::<Seq<char>>::empty());
    while i > 0
        invariant
            i <= messages@.len(),
            final_output_texts(messages@) == texts_of(res@) + final_output_texts(
                messages@.take(i as int),
            ),
        decreases i,
    {
        let message = &messages[i - 1];
        proof {
            assert(messages@.take(i as int).last() == messages@[i - 1]);
            assert(messages@.take(i as int).drop_last() =~= messages@.take(i - 1));
        }
        let ghost before = texts_of(res@);
        if message.role == Role::User {
            push_contents_candidates(&mut res, &message.content);
        }
        assert(final_output_texts(messages@) =~= texts_of(res@) + final_output_texts(
            messages@.take(i - 1),
        ));
        i = i - 1;
    }
    assert(texts_of(res@) + Seq::<Seq<char>>::empty() =~= texts_of(res@));
    res
}

/// The value of the first of `texts`, in order, that parses as JSON.
pub fn first_json(texts: &[String]) -> (res: Option<Value>)
    ensures
        res == first_parsed_json(texts_of(texts@)),
{
    let mut k: usize = 0;
    assert(texts_of(texts@).skip(0) =~= texts_of(texts@));
    while k < texts.len()
        invariant
            k <= texts@.len(),
            first_parsed_json(texts_of(texts@)) == first_parsed_json(
                texts_of(texts@).skip(k as int),
            ),
        decreases texts@.len() - k,
    {
        assert(texts_of(texts@).skip(k as int)[0] == texts[k as int]@);
        assert(texts_of(texts@).skip(k as int).drop_first() =~= texts_of(texts@).skip(k + 1));
        let parsed = parse_json(texts[k].as_str());
        if parsed.is_some() {
            return parsed;
        }
        k = k + 1;
    }
    None
}

/// A successful response of the final-output tool: a tool response whose
/// id contains `final_output` and that did not fail.
pub open spec fn is_final_output_success(content: MessageContent) -> bool {
    content matches MessageContent::ToolResponse { id, result: Ok(_) } && holds_substring(
        id@,
        "final_output"@,
    )
}

/// Whether the final-output tool was called: some user message (tool
/// responses come back in user messages) holds a successful response of it,
/// whatever that response holds.
pub open spec fn final_output_tool_called(messages: Seq<Message>) -> bool {
    exists|i: int, j: int|
        0 <= i < messages.len() && messages[i].role == Role::User && 0 <= j
            < messages[i].content@.len() && #[trigger] is_final_output_success(
            messages[i].content@[j],
        )
}

proof fn lemma_contents_candidates_from_success(contents: Seq<MessageContent>)
    requires
        contents_candidates(contents).len() > 0,
    ensures
        exists|j: int| 0 <= j < contents.len() && #[trigger] is_final_output_success(contents[j]),
    decreases contents.len(),
{
    let last = contents.last();
    if content_candidates(last).len() > 0 {
        assert(is_final_output_success(contents[contents.len() - 1]));
    } else {
        let shorter = contents.drop_last();
        assert(contents_candidates(shorter).len() > 0);
        lemma_contents_candidates_from_success(shorter);
        let j = choose|j: int| 0 <= j < shorter.len() && #[trigger] is_final_output_success(
            shorter[j],
        );
        assert(contents[j] == shorter[j]);
    }
}

proof fn lemma_candidates_from_call(messages: Seq<Message>)
    requires
        final_output_texts(messages).len() > 0,
    ensures
        final_output_tool_called(messages),
    decreases messages.len(),
{
    let last = messages.last();
    let n = messages.len() - 1;
    if last.role == Role::User && contents_candidates(last.content@).len() > 0 {
        lemma_contents_candidates_from_success(last.content@);
        let j = choose|j: int| 0 <= j < last.content@.len() && #[trigger] is_final_output_success(
            last.content@[j],
        );
        assert(messages[n] == last);
        assert(is_final_output_success(messages[n].content@[j]));
    } else {
        let shorter = messages.drop_last();
        assert(final_output_texts(shorter).len() > 0);
        lemma_candidates_from_call(shorter);
        let (i, j) = choose|i: int, j: int|
            0 <= i < shorter.len() && shorter[i].role == Role::User && 0 <= j
                < shorter[i].content@.len() && #[trigger] is_final_output_success(
                shorter[i].content@[j],
            );
        assert(messages[i] == shorter[i]);
        assert(is_final_output_success(messages[i].content@[j]));
    }
}

proof fn lemma_first_parsed_json_nonempty(texts: Seq<Seq<char>>)
    requires
        first_parsed_json(texts) is Some,
    ensures
        texts.len() > 0,
{
}

/// Structured output comes only from the final-output tool: a conversation
/// with structured output called that tool.
pub proof fn lemma_structured_output_needs_call(messages: Seq<Message>)
    requires
        structured_output(messages) is Some,
    ensures
        final_output_tool_called(messages),
{
    lemma_first_parsed_json_nonempty(final_output_texts(messages));
    lemma_candidates_from_call(messages);
}

/// Whether the final-output tool was called in the conversation: whether
/// some user message holds a successful response of a tool whose id contains
/// `final_output`.
pub fn final_output_was_called(messages: &[Message]) -> (b: bool)
    ensures
        b == final_output_tool_called(messages@),
{
    let mut i: usize = 0;
    while i < messages.len()
        invariant
            i <= messages@.len(),
            forall|k: int, j: int|
                0 <= k < i && messages@[k].role == Role::User && 0 <= j
                    < messages@[k].content@.len() ==> !#[trigger] is_final_output_success(
                    messages@[k].content@[j],
                ),
        decreases messages@.len() - i,
    {
        let message = &messages[i];
        if message.role == Role::User {
            let mut j: usize = 0;
            while j < message.content.len()
                invariant
                    i < messages@.len(),
                    *message == messages@[i as int],
                    message.role == Role::User,
                    j <= message.content@.len(),
                    forall|l: int|
                        0 <= l < j ==> !#[trigger] is_final_output_success(message.content@[l]),
                decreases message.content@.len() - j,
            {
                if let MessageContent::ToolResponse { id, result } = &message.content[j] {
                    if result.is_ok() && contains_str(id.as_str(), "final_output") {
                        proof {
                            let ii = i as int;
                            let jj = j as int;
                            assert(is_final_output_success(messages@[ii].content@[jj]));
                            assert(0 <= ii < messages@.len() && messages@[ii].role == Role::User
                                && 0 <= jj < messages@[ii].content@.len());
                        }
                        return true;
                    }
                }
                j = j + 1;
            }
        }
        i = i + 1;
    }
    false
}

/// The structured output of a conversation, and whether the final-output
/// tool was called. The output is found scanning from the last message back:
/// the first user message holding a successful response of a tool whose id
/// contains `final_output` with an output text that parses as JSON gives that
/// JSON. The tool counts as called when some user message holds a successful
/// response of it, whether or not its text parses.
pub fn extract_structured_output(messages: &[Message]) -> (res: (Option<Value>, bool))
    ensures
        res.0 == structured_output(messages@),
        res.1 == final_output_tool_called(messages@),
{
    let texts = final_output_candidates(messages);
    let value = first_json(texts.as_slice());
    let called = final_output_was_called(messages);
    (value, called)
}

/// Whether the turns and the tool calls of a conversation both fit in a
/// `u32`, as `count_interactions` needs.
pub fn interactions_fit(messages: &[Message]) -> (b: bool)
    ensures
        b == (turns(messages@) <= u32::MAX && tool_calls(messages@) <= u32::MAX),
{
    let mut turns_seen: u64 = 0;
    let mut calls_seen: u64 = 0;
    let mut i: usize = 0;
    while i < messages.len()
        invariant
            i <= messages@.len(),
            turns_seen == turns(messages@.take(i as int)),
            calls_seen == tool_calls(messages@.take(i as int)),
            turns_seen <= u32::MAX,
            calls_seen <= u32::MAX,
        decreases messages@.len() - i,
    {
        let message = &messages[i];
        proof {
            assert(messages@.take(i + 1).drop_last() =~= messages@.take(i as int));
            lemma_counts_of_prefix(messages@, i + 1);
        }
        if message.role == Role::Assistant {
            turns_seen = turns_seen + 1;
            if turns_seen > 0xffff_ffff {
                return false;
            }
            let mut j: usize = 0;
            while j < message.content.len()
                invariant
                    j <= message.content@.len(),
                    calls_seen == tool_calls(messages@.take(i as int)) + tool_requests(
                        message.content@.take(j as int),
                    ),
                    calls_seen <= u32::MAX,
                    turns(messages@.take(i + 1)) <= turns(messages@),
                    tool_calls(messages@.take(i + 1)) <= tool_calls(messages@),
                    tool_calls(messages@.take(i + 1)) == tool_calls(messages@.take(i as int))
                        + tool_requests(message.content@),
                decreases message.content@.len() - j,
            {
                proof {
                    assert(message.content@.take(j + 1).drop_last() =~= message.content@.take(
                        j as int,
                    ));
                    lemma_tool_requests_of_prefix(message.content@, j + 1);
                }
                if let MessageContent::ToolRequest { .. } = &message.content[j] {
                    calls_seen = calls_seen + 1;
                    if calls_seen > 0xffff_ffff {
                        return false;
                    }
                }
                j = j + 1;
            }
            assert(message.content@.take(j as int) =~= message.content@);
        }
        i = i + 1;
    }
    assert(messages@.take(i as int) =~= messages@);
    true
}

/// The session of the run for `request_id`: `task_` followed by the id.
pub fn task_session_id(request_id: &str) -> (res: String)
    ensures
        res@ == "task_"@ + request_id@,
{
    prefixed("task_", request_id)
}

/// The response to a finished run of the agent on the conversation
/// `messages`: success, with the final answer, the structured output, the
/// counts, and the given timing and working directory.
pub open spec fn is_run_response(
    r: TaskResponse,
    request_id: Seq<char>,
    messages: Seq<Message>,
    execution_time_ms: u64,
    timestamp: u64,
    working_dir: Option<String>,
) -> bool {
    &&& r.request_id@ == request_id
    &&& r.status == TaskStatus::Success
    &&& r.messages@ == messages
    &&& opt_text(r.final_response) == final_response(messages)
    &&& r.structured_output == structured_output(messages)
    &&& r.error is None
    &&& r.metadata.session_id@ == "task_"@ + request_id
    &&& r.metadata.turns_taken == turns(messages)
    &&& r.metadata.tool_calls_made == tool_calls(messages)
    &&& r.metadata.execution_time_ms == execution_time_ms
    &&& r.metadata.total_tokens is None
    &&& r.metadata.input_tokens is None
    &&& r.metadata.output_tokens is None
    &&& r.metadata.timestamp == timestamp
    &&& r.metadata.final_output_called == final_output_tool_called(messages)
    &&& r.metadata.working_dir == working_dir
}

/// The response to one run of the agent for `request_id`, from what the run
/// gave: the conversation it left, or the message of the error it failed
/// with; the time it took, the time after it, and the working directory.
pub fn execution_response(
    request_id: &str,
    outcome: Result<Vec<Message>, String>,
    execution_time_ms: u64,
    timestamp: u64,
    working_dir: Option<String>,
) -> (r: TaskResponse)
    requires
        outcome matches Ok(messages) ==> turns(messages@) <= u32::MAX && tool_calls(messages@)
            <= u32::MAX,
    ensures
        match outcome {
            Ok(messages) => is_run_response(
                r,
                request_id@,
                messages@,
                execution_time_ms,
                timestamp,
                working_dir,
            ),
            Err(e) => is_error_response(
                r,
                request_id@,
                "Agent execution failed: "@ + e@,
                timestamp,
            ),
        },
{
    match outcome {
        Ok(messages) => {
            let session_id = task_session_id(request_id);
            let (turns_taken, tool_calls_made) = count_interactions(messages.as_slice());
            let final_response = extract_final_response(messages.as_slice());
            let (structured_output, final_output_called) = extract_structured_output(
                messages.as_slice(),
            );
            let metadata = TaskMetadata {
                session_id,
                turns_taken,
                tool_calls_made,
                execution_time_ms,
                total_tokens: None,
                input_tokens: None,
                output_tokens: None,
                timestamp,
                final_output_called,
                working_dir,
            };
            TaskResponse::success(
                String::from_str(request_id),
                messages,
                final_response,
                structured_output,
                metadata,
            )
        },
        Err(e) => {
            let message = prefixed("Agent execution failed: ", e.as_str());
            TaskResponse::error_at(String::from_str(request_id), message, timestamp)
        },
    }
}

/// Every turn is a message: a conversation has no more turns than messages.
pub proof fn lemma_turns_at_most_messages(messages: Seq<Message>)
    ensures
        turns(messages) <= messages.len(),
    decreases messages.len(),
{
    if messages.len() > 0 {
        lemma_turns_at_most_messages(messages.drop_last());
    }
}

/// Messages that the assistant did not send, added after a conversation,
/// leave its final response unchanged.
pub proof fn lemma_final_response_ignores_later_user_messages(
    messages: Seq<Message>,
    later: Seq<Message>,
)
    requires
        forall|i: int| 0 <= i < later.len() ==> #[trigger] later[i].role != Role::Assistant,
    ensures
        final_response(messages + later) == final_response(messages),
    decreases later.len(),
{
    if later.len() == 0 {
        assert(messages + later =~= messages);
    } else {
        let shorter = later.drop_last();
        assert((messages + later).drop_last() =~= messages + shorter);
        assert((messages + later).last() == later[later.len() - 1]);
        lemma_final_response_ignores_later_user_messages(messages, shorter);
    }
}

/// Messages sent by the assistant, added after a conversation, leave its
/// structured output unchanged: structured output comes back in user
/// messages only.
pub proof fn lemma_structured_output_ignores_later_assistant_messages(
    messages: Seq<Message>,
    later: Seq<Message>,
)
    requires
        forall|i: int| 0 <= i < later.len() ==> #[trigger] later[i].role == Role::Assistant,
    ensures
        structured_output(messages + later) == structured_output(messages),
    decreases later.len(),
{
    if later.len() == 0 {
        assert(messages + later =~= messages);
    } else {
        let shorter = later.drop_last();
        assert((messages + later).drop_last() =~= messages + shorter);
        assert((messages + later).last() == later[later.len() - 1]);
        lemma_structured_output_ignores_later_assistant_messages(messages, shorter);
    }
}

/// A run's response is consistent: when it holds structured output it
/// reports the final-output tool as called, it counts no more turns than it
/// holds messages, and it is a success.
pub proof fn lemma_run_response_consistent(
    r: TaskResponse,
    request_id: Seq<char>,
    messages: Seq<Message>,
    execution_time_ms: u64,
    timestamp: u64,
    working_dir: Option<String>,
)
    requires
        is_run_response(r, request_id, messages, execution_time_ms, timestamp, working_dir),
    ensures
        r.structured_output is Some ==> r.metadata.final_output_called,
        r.metadata.turns_taken <= r.messages@.len(),
        r.status == TaskStatus::Success,
        r.error is None,
{
    lemma_turns_at_most_messages(messages);
    if r.structured_output is Some {
        lemma_structured_output_needs_call(messages);
    }
}

} // verus!
