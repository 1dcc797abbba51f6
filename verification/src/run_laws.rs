//! Laws of the analysis of a finished run, stated over the conversation's
//! items themselves: what is counted, which text is the final answer, and
//! which output becomes structured output.
use vstd::prelude::*;
use crate::agent_executor::{
    content_candidates, contents_candidates, final_output_texts, final_response, first_parsed_json,
    first_text,
    output_texts, structured_output, tool_calls, tool_requests, turns,
};
use crate::conversation::{Message, MessageContent, Role, ToolOutput};
use crate::json::parsed_json;
use crate::text::holds_substring;
use serde_json::Value;

verus! {

proof fn lemma_tool_requests_are_filtered(contents: Seq<MessageContent>)
    ensures
        tool_requests(contents) == contents.filter(|c: MessageContent| c is ToolRequest).len(),
    decreases contents.len(),
{
    reveal(Seq::filter);
    if contents.len() > 0 {
        lemma_tool_requests_are_filtered(contents.drop_last());
    }
}

/// One message counts one turn when the assistant sent it and none
/// otherwise, and as many tool calls as it holds tool requests when the
/// assistant sent it (each request once) and none otherwise. With
/// `lemma_interactions_concat`, this fixes the counts of every conversation.
pub proof fn lemma_message_counts(message: Message)
    ensures
        turns(seq![message]) == (if message.role == Role::Assistant {
            1nat
        } else {
            0nat
        }),
        tool_calls(seq![message]) == (if message.role == Role::Assistant {
            message.content@.filter(|c: MessageContent| c is ToolRequest).len()
        } else {
            0nat
        }),
{
    let single = seq![message];
    assert(single.drop_last() =~= Seq::<Message>::empty());
    assert(single.last() == message);
    assert(turns(single.drop_last()) == 0);
    assert(tool_calls(single.drop_last()) == 0);
    lemma_tool_requests_are_filtered(message.content@);
}

/// The first text of a list of items is the text of its earliest text item:
/// it is `Some(t)` exactly when some item `i` is the text `t` and no item
/// before `i` is a text, and `None` exactly when no item is a text.
pub proof fn lemma_first_text_is_earliest(contents: Seq<MessageContent>)
    ensures
        match first_text(contents) {
            Some(t) => exists|i: int|
                0 <= i < contents.len() && (#[trigger] contents[i] matches MessageContent::Text(
                    s,
                ) && s@ == t) && forall|l: int| 0 <= l < i ==> !(contents[l] is Text),
            None => forall|i: int| 0 <= i < contents.len() ==> !(#[trigger] contents[i] is Text),
        },
    decreases contents.len(),
{
    if contents.len() > 0 {
        let rest = contents.drop_first();
        lemma_first_text_is_earliest(rest);
        if contents[0] is Text {
            assert(forall|l: int| 0 <= l < 0 ==> !(contents[l] is Text));
        } else {
            match first_text(rest) {
                Some(t) => {
                    let i = choose|i: int|
                        0 <= i < rest.len() && (#[trigger] rest[i] matches MessageContent::Text(
                            s,
                        ) && s@ == t) && forall|l: int| 0 <= l < i ==> !(rest[l] is Text);
                    assert(contents[i + 1] == rest[i]);
                    assert forall|l: int| 0 <= l < i + 1 implies !(contents[l] is Text) by {
                        if l > 0 {
                            assert(contents[l] == rest[l - 1]);
                        }
                    }
                },
                None => {
                    assert forall|i: int| 0 <= i < contents.len() implies !(
                    #[trigger] contents[i] is Text) by {
                        if i > 0 {
                            assert(contents[i] == rest[i - 1]);
                        }
                    }
                },
            }
        }
    }
}

/// The final response is the first text of the last message the assistant
/// sent: when message `i` is from the assistant and none after it is, the
/// final response is the first text of message `i`.
pub proof fn lemma_final_response_of_last_assistant_message(messages: Seq<Message>, i: int)
    requires
        0 <= i < messages.len(),
        messages[i].role == Role::Assistant,
        forall|l: int| i < l < messages.len() ==> #[trigger] messages[l].role != Role::Assistant,
    ensures
        final_response(messages) == first_text(messages[i].content@),
    decreases messages.len(),
{
    if i < messages.len() - 1 {
        let shorter = messages.drop_last();
        assert(messages.last() == messages[messages.len() - 1]);
        assert(shorter[i] == messages[i]);
        assert forall|l: int| i < l < shorter.len() implies #[trigger] shorter[l].role
            != Role::Assistant by {
            assert(shorter[l] == messages[l]);
        }
        lemma_final_response_of_last_assistant_message(shorter, i);
    }
}

/// A conversation in which the assistant sent nothing has no final response.
pub proof fn lemma_final_response_needs_assistant(messages: Seq<Message>)
    requires
        forall|l: int| 0 <= l < messages.len() ==> #[trigger] messages[l].role != Role::Assistant,
    ensures
        final_response(messages) is None,
    decreases messages.len(),
{
    if messages.len() > 0 {
        let shorter = messages.drop_last();
        assert(messages.last() == messages[messages.len() - 1]);
        assert forall|l: int| 0 <= l < shorter.len() implies #[trigger] shorter[l].role
            != Role::Assistant by {
            assert(shorter[l] == messages[l]);
        }
        lemma_final_response_needs_assistant(shorter);
    }
}

/// `t` is the text of output `k` of `content`, a successful response of a
/// tool whose id contains `final_output`.
pub open spec fn is_candidate_output(content: MessageContent, k: int, t: Seq<char>) -> bool {
    &&& content matches MessageContent::ToolResponse { id, result: Ok(outputs) }
    &&& holds_substring(id@, "final_output"@)
    &&& 0 <= k < outputs@.len()
    &&& outputs@[k] matches ToolOutput::Text(s)
    &&& s@ == t
}

/// `t` is the text of output `k` of item `j` of message `i`, a user message,
/// where that item is a successful response of the final-output tool.
pub open spec fn is_candidate_at(messages: Seq<Message>, i: int, j: int, k: int, t: Seq<char>) -> bool {
    &&& 0 <= i < messages.len()
    &&& messages[i].role == Role::User
    &&& 0 <= j < messages[i].content@.len()
    &&& is_candidate_output(messages[i].content@[j], k, t)
}

proof fn lemma_contains_concat<A>(p: Seq<A>, q: Seq<A>, x: A)
    ensures
        (p + q).contains(x) <==> p.contains(x) || q.contains(x),
{
    if (p + q).contains(x) {
        let i = choose|i: int| 0 <= i < (p + q).len() && (p + q)[i] == x;
        if i < p.len() {
            assert(p[i] == x);
        } else {
            assert(q[i - p.len()] == x);
        }
    }
    if p.contains(x) {
        let i = choose|i: int| 0 <= i < p.len() && p[i] == x;
        assert((p + q)[i] == x);
    }
    if q.contains(x) {
        let i = choose|i: int| 0 <= i < q.len() && q[i] == x;
        assert((p + q)[i + p.len()] == x);
    }
}

proof fn lemma_output_texts_member(outputs: Seq<ToolOutput>, x: Seq<char>)
    ensures
        output_texts(outputs).contains(x) <==> exists|k: int|
            0 <= k < outputs.len() && (#[trigger] outputs[k] matches ToolOutput::Text(s) && s@
                == x),
    decreases outputs.len(),
{
    if outputs.len() == 0 {
        assert(!Seq::<Seq<char>>::empty().contains(x));
    } else {
        let shorter = outputs.drop_last();
        let n = outputs.len() - 1;
        let tail = match outputs.last() {
            ToolOutput::Text(t) => seq![t@],
            ToolOutput::Other(_) => Seq::<Seq<char>>::empty(),
        };
        lemma_output_texts_member(shorter, x);
        lemma_contains_concat(output_texts(shorter), tail, x);
        if output_texts(outputs).contains(x) {
            if output_texts(shorter).contains(x) {
                let k = choose|k: int|
                    0 <= k < shorter.len() && (#[trigger] shorter[k] matches ToolOutput::Text(s)
                        && s@ == x);
                assert(outputs[k] == shorter[k]);
            } else {
                assert(tail.contains(x));
                let i = choose|i: int| 0 <= i < tail.len() && tail[i] == x;
                assert(outputs[n] == outputs.last());
            }
        }
        if exists|k: int|
            0 <= k < outputs.len() && (#[trigger] outputs[k] matches ToolOutput::Text(s) && s@
                == x) {
            let k = choose|k: int|
                0 <= k < outputs.len() && (#[trigger] outputs[k] matches ToolOutput::Text(s) && s@
                    == x);
            if k < n {
                assert(shorter[k] == outputs[k]);
            } else {
                assert(outputs.last() == outputs[k]);
                assert(tail[0] == x);
            }
        }
    }
}

proof fn lemma_content_candidates_member(content: MessageContent, x: Seq<char>)
    ensures
        content_candidates(content).contains(x) <==> exists|k: int|
            #[trigger] is_candidate_output(content, k, x),
{
    match content {
        MessageContent::ToolResponse { id, result: Ok(outputs) } => {
            lemma_output_texts_member(outputs@, x);
            if holds_substring(id@, "final_output"@) {
                if content_candidates(content).contains(x) {
                    let k = choose|k: int|
                        0 <= k < outputs@.len() && (#[trigger] outputs@[k] matches ToolOutput::Text(
                            s,
                        ) && s@ == x);
                    assert(is_candidate_output(content, k, x));
                }
            } else {
                assert(!Seq::<Seq<char>>::empty().contains(x));
            }
        },
        _ => {
            assert(!Seq::<Seq<char>>::empty().contains(x));
        },
    }
}

proof fn lemma_contents_candidates_member(contents: Seq<MessageContent>, x: Seq<char>)
    ensures
        contents_candidates(contents).contains(x) <==> exists|j: int, k: int|
            0 <= j < contents.len() && #[trigger] is_candidate_output(contents[j], k, x),
    decreases contents.len(),
{
    if contents.len() == 0 {
        assert(!Seq::<Seq<char>>::empty().contains(x));
    } else {
        let shorter = contents.drop_last();
        let n = contents.len() - 1;
        lemma_contents_candidates_member(shorter, x);
        lemma_content_candidates_member(contents.last(), x);
        lemma_contains_concat(contents_candidates(shorter), content_candidates(contents.last()), x);
        if contents_candidates(contents).contains(x) {
            if contents_candidates(shorter).contains(x) {
                let (j, k) = choose|j: int, k: int|
                    0 <= j < shorter.len() && #[trigger] is_candidate_output(shorter[j], k, x);
                assert(contents[j] == shorter[j]);
            } else {
                let k = choose|k: int| #[trigger] is_candidate_output(contents.last(), k, x);
                assert(contents[n] == contents.last());
                assert(is_candidate_output(contents[n], k, x));
            }
        }
        if exists|j: int, k: int|
            0 <= j < contents.len() && #[trigger] is_candidate_output(contents[j], k, x) {
            let (j, k) = choose|j: int, k: int|
                0 <= j < contents.len() && #[trigger] is_candidate_output(contents[j], k, x);
            if j < n {
                assert(shorter[j] == contents[j]);
                assert(is_candidate_output(shorter[j], k, x));
            } else {
                assert(contents.last() == contents[j]);
                assert(is_candidate_output(contents.last(), k, x));
            }
        }
    }
}

proof fn lemma_final_output_texts_member(messages: Seq<Message>, x: Seq<char>)
    ensures
        final_output_texts(messages).contains(x) <==> exists|i: int, j: int, k: int|
            #[trigger] is_candidate_at(messages, i, j, k, x),
    decreases messages.len(),
{
    if messages.len() == 0 {
        assert(!Seq::<Seq<char>>::empty().contains(x));
    } else {
        let shorter = messages.drop_last();
        let n = messages.len() - 1;
        let last = messages.last();
        let head = if last.role == Role::User {
            contents_candidates(last.content@)
        } else {
            Seq::<Seq<char>>::empty()
        };
        lemma_final_output_texts_member(shorter, x);
        lemma_contents_candidates_member(last.content@, x);
        lemma_contains_concat(head, final_output_texts(shorter), x);
        assert(messages[n] == last);
        if final_output_texts(messages).contains(x) {
            if head.contains(x) {
                let (j, k) = choose|j: int, k: int|
                    0 <= j < last.content@.len() && #[trigger] is_candidate_output(
                        last.content@[j],
                        k,
                        x,
                    );
                assert(is_candidate_at(messages, n, j, k, x));
            } else {
                let (i, j, k) = choose|i: int, j: int, k: int|
                    #[trigger] is_candidate_at(shorter, i, j, k, x);
                assert(messages[i] == shorter[i]);
                assert(is_candidate_at(messages, i, j, k, x));
            }
        }
        if exists|i: int, j: int, k: int| #[trigger] is_candidate_at(messages, i, j, k, x) {
            let (i, j, k) = choose|i: int, j: int, k: int|
                #[trigger] is_candidate_at(messages, i, j, k, x);
            if i < n {
                assert(shorter[i] == messages[i]);
                assert(is_candidate_at(shorter, i, j, k, x));
            } else {
                assert(is_candidate_output(last.content@[j], k, x));
                assert(head.contains(x));
            }
        }
    }
}

proof fn lemma_first_parsed_json_found(texts: Seq<Seq<char>>)
    ensures
        first_parsed_json(texts) matches Some(v) ==> exists|i: int|
            0 <= i < texts.len() && parsed_json(#[trigger] texts[i]) == Some(v),
        (exists|i: int| 0 <= i < texts.len() && parsed_json(#[trigger] texts[i]) is Some)
            ==> first_parsed_json(texts) is Some,
    decreases texts.len(),
{
    if texts.len() > 0 {
        let rest = texts.drop_first();
        lemma_first_parsed_json_found(rest);
        if first_parsed_json(texts) is Some && parsed_json(texts[0]) is None {
            let v = first_parsed_json(texts)->0;
            let i = choose|i: int| 0 <= i < rest.len() && parsed_json(#[trigger] rest[i]) == Some(v);
            assert(texts[i + 1] == rest[i]);
        }
        if exists|i: int| 0 <= i < texts.len() && parsed_json(#[trigger] texts[i]) is Some {
            let i = choose|i: int| 0 <= i < texts.len() && parsed_json(#[trigger] texts[i]) is Some;
            if i > 0 && parsed_json(texts[0]) is None {
                assert(rest[i - 1] == texts[i]);
            }
        }
    }
}

proof fn lemma_first_parsed_json_concat(x: Seq<Seq<char>>, y: Seq<Seq<char>>)
    ensures
        first_parsed_json(x + y) == (if first_parsed_json(x) is Some {
            first_parsed_json(x)
        } else {
            first_parsed_json(y)
        }),
    decreases x.len(),
{
    if x.len() == 0 {
        assert(x + y =~= y);
    } else {
        assert((x + y)[0] == x[0]);
        assert((x + y).drop_first() =~= x.drop_first() + y);
        lemma_first_parsed_json_concat(x.drop_first(), y);
    }
}

proof fn lemma_final_output_texts_concat(a: Seq<Message>, b: Seq<Message>)
    ensures
        final_output_texts(a + b) == final_output_texts(b) + final_output_texts(a),
    decreases b.len(),
{
    if b.len() == 0 {
        assert(a + b =~= a);
        assert(final_output_texts(b) + final_output_texts(a) =~= final_output_texts(a));
    } else {
        lemma_final_output_texts_concat(a, b.drop_last());
        assert((a + b).drop_last() =~= a + b.drop_last());
        assert((a + b).last() == b.last());
        let head = if b.last().role == Role::User {
            contents_candidates(b.last().content@)
        } else {
            Seq::<Seq<char>>::empty()
        };
        assert(head + (final_output_texts(b.drop_last()) + final_output_texts(a)) =~= (head
            + final_output_texts(b.drop_last())) + final_output_texts(a));
    }
}

/// Structured output is a real output: when a conversation has structured
/// output `v`, some user message holds a successful response of a tool whose
/// id contains `final_output`, with an output text that parses as JSON to `v`.
pub proof fn lemma_structured_output_sound(messages: Seq<Message>)
    ensures
        structured_output(messages) matches Some(v) ==> exists|i: int, j: int, k: int, t: Seq<char>|
            #[trigger] is_candidate_at(messages, i, j, k, t) && parsed_json(t) == Some(v),
{
    let texts = final_output_texts(messages);
    lemma_first_parsed_json_found(texts);
    if structured_output(messages) is Some {
        let v = structured_output(messages)->0;
        let idx = choose|idx: int| 0 <= idx < texts.len() && parsed_json(#[trigger] texts[idx]) == Some(v);
        let t = texts[idx];
        assert(texts.contains(t));
        lemma_final_output_texts_member(messages, t);
        let (i, j, k) = choose|i: int, j: int, k: int| #[trigger] is_candidate_at(messages, i, j, k, t);
        assert(is_candidate_at(messages, i, j, k, t) && parsed_json(t) == Some(v));
    }
}

/// No parseable output is missed: when some user message holds a successful
/// response of a tool whose id contains `final_output` with an output text
/// that parses as JSON, the conversation has structured output, wherever
/// that message stands.
pub proof fn lemma_structured_output_complete(
    messages: Seq<Message>,
    i: int,
    j: int,
    k: int,
    t: Seq<char>,
)
    requires
        is_candidate_at(messages, i, j, k, t),
        parsed_json(t) is Some,
    ensures
        structured_output(messages) is Some,
{
    let texts = final_output_texts(messages);
    lemma_final_output_texts_member(messages, t);
    assert(texts.contains(t));
    let idx = choose|idx: int| 0 <= idx < texts.len() && texts[idx] == t;
    assert(parsed_json(texts[idx]) is Some);
    lemma_first_parsed_json_found(texts);
}

/// The latest structured output wins: when the later part of a conversation
/// has structured output, the whole conversation has that one.
pub proof fn lemma_structured_output_latest_wins(earlier: Seq<Message>, later: Seq<Message>)
    requires
        structured_output(later) is Some,
    ensures
        structured_output(earlier + later) == structured_output(later),
{
    lemma_final_output_texts_concat(earlier, later);
    lemma_first_parsed_json_concat(final_output_texts(later), final_output_texts(earlier));
}

/// The scan goes back as far as it must: when the later part of a
/// conversation has no structured output (even if the final-output tool
/// answered there with text that does not parse), the whole conversation
/// has the structured output of its earlier part.
pub proof fn lemma_structured_output_scans_back(earlier: Seq<Message>, later: Seq<Message>)
    requires
        structured_output(later) is None,
    ensures
        structured_output(earlier + later) == structured_output(earlier),
{
    lemma_final_output_texts_concat(earlier, later);
    lemma_first_parsed_json_concat(final_output_texts(later), final_output_texts(earlier));
}

} // verus!
